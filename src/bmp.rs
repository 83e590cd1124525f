use bitvec::field::BitField;
use bitvec::order::Msb0;
use bitvec::view::BitView;
use itertools::Itertools;
use vstd::arithmetic::power2::pow2;
use vstd::prelude::*;
use vstd::slice::slice_subrange;

use crate::vga::Vga18;

verus! {

/// Length of the file header and information header together.
pub const HEADER_LEN: usize = 54;

/// The two bytes `"BM"` read as a little-endian 16-bit number.
pub const BMP_MAGIC: u16 = 0x4D42;

/// The header fields, in file order.
#[derive(Clone, Copy, Debug, PartialEq, Eq, Structural)]
pub struct BmpHeader {
    pub bmp_type: u16,
    pub size: u32,
    pub reserved: u32,
    pub offset: u32,
    pub header_size: u32,
    pub width: u32,
    pub height: u32,
    pub planes: u16,
    pub bpp: u16,
    pub compression: u32,
    pub size_image: u32,
    pub xppm: u32,
    pub yppm: u32,
    pub colors_used: u32,
    pub colors_important: u32,
}

/// A decoded image: its header, its palette, and one palette index per
/// pixel, row by row from the top.
pub struct Bmp {
    pub header: BmpHeader,
    pub palette_table: Vec<Vga18>,
    pub data: Vec<u8>,
}

impl Bmp {
    /// One pixel for each cell of the `width` x `height` grid.
    pub open spec fn wf(&self) -> bool {
        self.data@.len() == self.header.width as int * self.header.height as int
    }
}

/// Why a buffer could not be decoded.
#[derive(Clone, Copy, Debug, PartialEq, Eq, Structural)]
pub enum DecodeError {
    /// The buffer is shorter than the header.
    TruncatedHeader,
    /// The first two bytes are not `"BM"`.
    BadMagic,
    /// The size in the header is not the length of the buffer.
    SizeMismatch,
    /// The pixel data would start past the end of the buffer.
    OffsetOutOfRange,
    /// The pixel data is compressed.
    UnsupportedCompression,
    /// The size of the pixel data does not fit in the address space.
    DataOverflow,
    /// The buffer ends before the pixel data does.
    DataTooSmall,
    /// The palette would start before the buffer does.
    PaletteOutOfRange,
    /// The depth is not 1, 2, 4 or 8 bits per pixel.
    UnsupportedBitDepth,
}

/// The little-endian 16-bit number at byte `i` of `s`.
pub open spec fn le16(s: Seq<u8>, i: int) -> int {
    s[i] as int + s[i + 1] as int * 256
}

/// The little-endian 32-bit number at byte `i` of `s`.
pub open spec fn le32(s: Seq<u8>, i: int) -> int {
    le16(s, i) + le16(s, i + 2) * 65536
}

/// The header that the first 54 bytes of `s` hold.
pub open spec fn header_spec(s: Seq<u8>) -> BmpHeader {
    BmpHeader {
        bmp_type: le16(s, 0) as u16,
        size: le32(s, 2) as u32,
        reserved: le32(s, 6) as u32,
        offset: le32(s, 10) as u32,
        header_size: le32(s, 14) as u32,
        width: le32(s, 18) as u32,
        height: le32(s, 22) as u32,
        planes: le16(s, 26) as u16,
        bpp: le16(s, 28) as u16,
        compression: le32(s, 30) as u32,
        size_image: le32(s, 34) as u32,
        xppm: le32(s, 38) as u32,
        yppm: le32(s, 42) as u32,
        colors_used: le32(s, 46) as u32,
        colors_important: le32(s, 50) as u32,
    }
}

/// Bytes in one stored row: the row's bits rounded up to a whole number of
/// 32-bit words.
pub open spec fn row_stride(h: BmpHeader) -> int {
    (h.bpp as int * h.width as int + 31) / 32 * 4
}

/// The depths that the decoder unpacks.
pub open spec fn supported_depth(bpp: u16) -> bool {
    bpp == 1 || bpp == 2 || bpp == 4 || bpp == 8
}

/// The first rule that `s` breaks, checked in this order, or `None` when
/// `s` can be decoded.
pub open spec fn decode_error(s: Seq<u8>) -> Option<DecodeError> {
    let h = header_spec(s);
    if s.len() < HEADER_LEN {
        Some(DecodeError::TruncatedHeader)
    } else if h.bmp_type != BMP_MAGIC {
        Some(DecodeError::BadMagic)
    } else if h.size as int != s.len() {
        Some(DecodeError::SizeMismatch)
    } else if h.offset as int > s.len() {
        Some(DecodeError::OffsetOutOfRange)
    } else if h.compression != 0 {
        Some(DecodeError::UnsupportedCompression)
    } else if row_stride(h) * h.height as int > usize::MAX as int {
        Some(DecodeError::DataOverflow)
    } else if row_stride(h) * h.height as int > s.len() - h.offset as int {
        Some(DecodeError::DataTooSmall)
    } else if h.colors_used as int * 4 > h.offset as int {
        Some(DecodeError::PaletteOutOfRange)
    } else if !supported_depth(h.bpp) {
        Some(DecodeError::UnsupportedBitDepth)
    } else {
        None
    }
}

/// The `k`-th group of `bpp` bits of `row`, the bits taken most significant
/// first, read as an unsigned number whose last bit is its least
/// significant one.
pub open spec fn packed_pixel(row: Seq<u8>, bpp: nat, k: nat) -> u8 {
    let bit = k * bpp;
    (row[(bit / 8) as int] as nat / pow2((8 - bit % 8 - bpp) as nat) % pow2(bpp)) as u8
}

/// The bytes of the `n`-th row in file order (the bottom row is the first).
pub open spec fn stored_row(s: Seq<u8>, n: int) -> Seq<u8> {
    let h = header_spec(s);
    let start = h.offset as int + n * row_stride(h);
    s.subrange(start, start + row_stride(h))
}

/// The palette index in column `c` of the `n`-th row in file order.
pub open spec fn stored_pixel(s: Seq<u8>, n: int, c: int) -> u8 {
    let h = header_spec(s);
    if h.bpp == 8 {
        stored_row(s, n)[c]
    } else {
        packed_pixel(stored_row(s, n), h.bpp as nat, c as nat)
    }
}

/// Row `r` of the decoded image, counted from the top: the file's row
/// `height - 1 - r`.
pub open spec fn decoded_row(s: Seq<u8>, r: int) -> Seq<u8> {
    let h = header_spec(s);
    Seq::new(h.width as nat, |c: int| stored_pixel(s, h.height - 1 - r, c))
}

/// The first `n` rows of the decoded image, one after the other.
pub open spec fn decoded_rows(s: Seq<u8>, n: nat) -> Seq<u8>
    decreases n,
{
    if n == 0 {
        Seq::empty()
    } else {
        decoded_rows(s, (n - 1) as nat) + decoded_row(s, n - 1)
    }
}

/// All pixels of the decoded image, top row first.
pub open spec fn pixels_spec(s: Seq<u8>) -> Seq<u8> {
    decoded_rows(s, header_spec(s).height as nat)
}

/// Palette entry `i`: the four bytes (blue, green, red, unused) at
/// `offset - 4 * colors_used + 4 * i`, each channel cut to its six high bits.
pub open spec fn palette_entry(s: Seq<u8>, i: int) -> Vga18 {
    let h = header_spec(s);
    let at = h.offset as int - h.colors_used as int * 4 + 4 * i;
    Vga18 { red: s[at + 2] >> 2, green: s[at + 1] >> 2, blue: s[at] >> 2 }
}

/// The palette: `colors_used` entries, in file order.
pub open spec fn palette_spec(s: Seq<u8>) -> Seq<Vga18> {
    Seq::new(header_spec(s).colors_used as nat, |i: int| palette_entry(s, i))
}

proof fn lemma_rows_len(s: Seq<u8>, n: nat)
    ensures
        decoded_rows(s, n).len() == n * header_spec(s).width,
    decreases n,
{
    let w = header_spec(s).width as int;
    if n > 0 {
        lemma_rows_len(s, (n - 1) as nat);
        assert(decoded_rows(s, n).len() == decoded_rows(s, (n - 1) as nat).len() + w);
        assert((n - 1) * w + w == n * w) by (nonlinear_arith);
    } else {
        assert(0 * w == 0);
    }
}

/// Every decodable buffer decodes to exactly `width * height` pixels.
pub proof fn lemma_decoded_len(s: Seq<u8>)
    requires
        decode_error(s) is None,
    ensures
        pixels_spec(s).len() == header_spec(s).width * header_spec(s).height,
{
    let h = header_spec(s);
    lemma_rows_len(s, h.height as nat);
    assert(h.height * h.width == h.width * h.height) by (nonlinear_arith);
}

proof fn lemma_stored_pixel_below_depth(s: Seq<u8>, n: int, c: int)
    requires
        supported_depth(header_spec(s).bpp),
    ensures
        (stored_pixel(s, n, c) as nat) < pow2(header_spec(s).bpp as nat),
{
    let bpp = header_spec(s).bpp as nat;
    vstd::arithmetic::power2::lemma2_to64();
    if bpp != 8 {
        let row = stored_row(s, n);
        let bit = c as nat * bpp;
        let x = row[(bit / 8) as int] as nat / pow2((8 - bit % 8 - bpp) as nat);
        assert(x % pow2(bpp) < pow2(bpp));
    }
}

proof fn lemma_rows_below_depth(s: Seq<u8>, n: nat)
    requires
        supported_depth(header_spec(s).bpp),
    ensures
        forall|i: int|
            0 <= i < decoded_rows(s, n).len() ==> (#[trigger] decoded_rows(s, n)[i] as nat) < pow2(
                header_spec(s).bpp as nat,
            ),
    decreases n,
{
    if n > 0 {
        lemma_rows_below_depth(s, (n - 1) as nat);
        let h = header_spec(s);
        let prev = decoded_rows(s, (n - 1) as nat);
        let row = decoded_row(s, n - 1);
        assert forall|i: int| 0 <= i < decoded_rows(s, n).len() implies (
        #[trigger] decoded_rows(s, n)[i] as nat) < pow2(h.bpp as nat) by {
            if i >= prev.len() {
                lemma_stored_pixel_below_depth(s, h.height - 1 - (n - 1), i - prev.len());
            }
        }
    }
}

/// Every decoded pixel at depth `bpp` is below `2^bpp`.
pub proof fn lemma_pixels_below_depth(s: Seq<u8>)
    requires
        decode_error(s) is None,
    ensures
        forall|i: int|
            0 <= i < pixels_spec(s).len() ==> (#[trigger] pixels_spec(s)[i] as nat) < pow2(
                header_spec(s).bpp as nat,
            ),
{
    lemma_rows_below_depth(s, header_spec(s).height as nat);
}

/// Decoding depends on the bytes alone: equal buffers give the same
/// outcome, the same header, the same palette and the same pixels.
pub proof fn lemma_decode_deterministic(a: Seq<u8>, b: Seq<u8>)
    requires
        a == b,
    ensures
        decode_error(a) == decode_error(b),
        header_spec(a) == header_spec(b),
        palette_spec(a) == palette_spec(b),
        pixels_spec(a) == pixels_spec(b),
{
}

proof fn lemma_rows_index(s: Seq<u8>, n: nat, r: int, c: int)
    requires
        0 <= r < n,
        0 <= c < header_spec(s).width,
    ensures
        r * header_spec(s).width + c < decoded_rows(s, n).len(),
        decoded_rows(s, n)[r * header_spec(s).width + c] == decoded_row(s, r)[c],
    decreases n,
{
    let w = header_spec(s).width as int;
    lemma_rows_len(s, (n - 1) as nat);
    lemma_rows_len(s, n);
    if r < n - 1 {
        lemma_rows_index(s, (n - 1) as nat, r, c);
    } else {
        assert(r * w == (n - 1) * w);
    }
    assert(r * w + c < n * w) by (nonlinear_arith)
        requires
            0 <= r < n,
            0 <= c < w,
    ;
}

/// Rows come out in the reverse of their file order: row `r` of the decoded
/// image, counted from the top, is the file's row `height - 1 - r`, so the
/// first row stored becomes the last one decoded and the last stored the
/// first.
pub proof fn lemma_rows_reversed(s: Seq<u8>, r: int, c: int)
    requires
        decode_error(s) is None,
        0 <= r < header_spec(s).height,
        0 <= c < header_spec(s).width,
    ensures
        r * header_spec(s).width + c < pixels_spec(s).len(),
        pixels_spec(s)[r * header_spec(s).width + c] == stored_pixel(
            s,
            header_spec(s).height - 1 - r,
            c,
        ),
{
    lemma_rows_index(s, header_spec(s).height as nat, r, c);
}


fn row_stride_of(h: &BmpHeader) -> (r: u64)
    ensures
        r as int == row_stride(*h),
{
    proof {
        let b = h.bpp as int;
        let w = h.width as int;
        assert(b * w <= 65535 * 4294967295) by (nonlinear_arith)
            requires
                0 <= b <= 65535,
                0 <= w <= 4294967295,
        ;
    }
    (h.bpp as u64 * h.width as u64 + 31) / 32 * 4
}

/// Relies on bitvec: `view_bits::<Msb0>()` runs over the bytes' bits most
/// significant first, `chunks(bpp)` cuts that run into groups of `bpp` bits,
/// and `load_le::<u8>()` reads a group that lies inside one byte as the
/// unsigned number that those bits spell, the group's last bit lowest.
#[verifier::external_body]
fn unpack_row(row: &[u8], bpp: usize, width: usize) -> (r: Vec<u8>)
    requires
        bpp == 1 || bpp == 2 || bpp == 4,
        width * bpp <= row@.len() * 8,
    ensures
        r@ == Seq::new(width as nat, |k: int| packed_pixel(row@, bpp as nat, k as nat)),
{
    row.view_bits::<Msb0>().chunks(bpp).take(width).map(|b| b.load_le::<u8>()).collect()
}

/// Relies on itertools' `tuples`: the bytes in consecutive groups of four,
/// in order, a last group of fewer than four left out.
#[verifier::external_body]
fn quads(bytes: &[u8]) -> (r: Vec<(u8, u8, u8, u8)>)
    ensures
        r@.len() == bytes@.len() / 4,
        forall|i: int|
            0 <= i < r@.len() ==> #[trigger] r@[i] == (
                bytes@[4 * i],
                bytes@[4 * i + 1],
                bytes@[4 * i + 2],
                bytes@[4 * i + 3],
            ),
{
    bytes.iter().copied().tuples().collect()
}

/// Palette entries from the four-byte records (blue, green, red, unused) of
/// `table`, each channel cut to its six high bits.
fn load_palette(table: &[u8]) -> (r: Vec<Vga18>)
    ensures
        r@.len() == table@.len() / 4,
        forall|i: int|
            0 <= i < r@.len() ==> #[trigger] r@[i] == (Vga18 {
                red: table@[4 * i + 2] >> 2,
                green: table@[4 * i + 1] >> 2,
                blue: table@[4 * i] >> 2,
            }),
{
    let records = quads(table);
    let mut palette: Vec<Vga18> = Vec::new();
    let mut i: usize = 0;
    while i < records.len()
        invariant
            i <= records@.len(),
            records@.len() == table@.len() / 4,
            palette@.len() == i,
            forall|k: int|
                0 <= k < records@.len() ==> #[trigger] records@[k] == (
                    table@[4 * k],
                    table@[4 * k + 1],
                    table@[4 * k + 2],
                    table@[4 * k + 3],
                ),
            forall|k: int|
                0 <= k < i ==> #[trigger] palette@[k] == (Vga18 {
                    red: table@[4 * k + 2] >> 2,
                    green: table@[4 * k + 1] >> 2,
                    blue: table@[4 * k] >> 2,
                }),
        decreases records@.len() - i,
    {
        let (b, g, r, _) = records[i];
        palette.push(Vga18 { red: r >> 2, green: g >> 2, blue: b >> 2 });
        i += 1;
    }
    palette
}


/// Unpacks the pixel data that starts at `header.offset`, rows taken from the
/// last stored to the first, or `None` for a depth that is not unpacked.
fn load_data(source: &[u8], header: &BmpHeader, stride: u64) -> (r: Option<Vec<u8>>)
    requires
        source@.len() >= HEADER_LEN,
        *header == header_spec(source@),
        stride == row_stride(*header),
        header.offset as int + stride * header.height as int <= source@.len(),
    ensures
        r is None <==> !supported_depth(header.bpp),
        r matches Some(d) ==> d@ == pixels_spec(source@),
{
    if !(header.bpp == 1 || header.bpp == 2 || header.bpp == 4 || header.bpp == 8) {
        return None;
    }
    let ghost s = source@;
    let bpp: usize = header.bpp as usize;
    let width: usize = header.width as usize;
    let height: usize = header.height as usize;
    let offset: usize = header.offset as usize;
    proof {
        let x = bpp * width;
        assert(x <= (x + 31) / 32 * 32);
        assert(width * bpp <= stride * 8) by (nonlinear_arith)
            requires
                x == bpp * width,
                x <= (x + 31) / 32 * 32,
                stride == (x + 31) / 32 * 4,
        ;
        assert(source@.len() == source.len());
    }
    let mut data: Vec<u8> = Vec::new();
    let mut r: usize = 0;
    while r < height
        invariant
            s == source@,
            *header == header_spec(s),
            supported_depth(header.bpp),
            bpp == header.bpp,
            width == header.width,
            height == header.height,
            offset == header.offset,
            stride == row_stride(*header),
            width * bpp <= stride * 8,
            offset + stride * height <= s.len(),
            s.len() <= usize::MAX,
            r <= height,
            data@ == decoded_rows(s, r as nat),
        decreases height - r,
    {
        let n: usize = height - 1 - r;
        proof {
            assert(n * stride + stride <= stride * height) by (nonlinear_arith)
                requires
                    n < height,
            ;
        }
        let row_len: usize = stride as usize;
        let start: usize = offset + n * row_len;
        let row = slice_subrange(source, start, start + row_len);
        assert(row@ == stored_row(s, n as int));
        let ghost before = data@;
        if bpp == 8 {
            let mut c: usize = 0;
            while c < width
                invariant
                    width <= stride,
                    row@.len() == stride,
                    c <= width,
                    data@ == before + Seq::new(c as nat, |k: int| row@[k]),
                decreases width - c,
            {
                data.push(row[c]);
                c += 1;
                assert(data@ =~= before + Seq::new(c as nat, |k: int| row@[k]));
            }
        } else {
            let mut px = unpack_row(row, bpp, width);
            data.append(&mut px);
        }
        assert(data@ =~= decoded_rows(s, (r + 1) as nat));
        r += 1;
    }
    Some(data)
}

/// Decodes a whole bitmap file held in `source`.
pub fn load_bmp(source: &[u8]) -> (r: Result<Bmp, DecodeError>)
    ensures
        r is Ok <==> decode_error(source@) is None,
        r matches Err(e) ==> decode_error(source@) == Some(e),
        r matches Ok(b) ==> {
            &&& b.header == header_spec(source@)
            &&& b.palette_table@ == palette_spec(source@)
            &&& b.data@ == pixels_spec(source@)
            &&& b.wf()
        },
{
    if source.len() < HEADER_LEN {
        return Err(DecodeError::TruncatedHeader);
    }
    let header = parse_header(source);
    if header.bmp_type != BMP_MAGIC {
        return Err(DecodeError::BadMagic);
    }
    if header.size as usize != source.len() {
        return Err(DecodeError::SizeMismatch);
    }
    if header.offset as usize > source.len() {
        return Err(DecodeError::OffsetOutOfRange);
    }
    if header.compression != 0 {
        return Err(DecodeError::UnsupportedCompression);
    }
    let stride = row_stride_of(&header);
    let available: u64 = (source.len() - header.offset as usize) as u64;
    match stride.checked_mul(header.height as u64) {
        None => {
            return Err(DecodeError::DataOverflow);
        },
        Some(total) => {
            if total > usize::MAX as u64 {
                return Err(DecodeError::DataOverflow);
            }
            if total > available {
                return Err(DecodeError::DataTooSmall);
            }
        },
    }
    if header.colors_used as u64 * 4 > header.offset as u64 {
        return Err(DecodeError::PaletteOutOfRange);
    }
    let offset: usize = header.offset as usize;
    let base: usize = offset - header.colors_used as usize * 4;
    let palette = load_palette(slice_subrange(source, base, offset));
    proof {
        assert(palette@ =~= palette_spec(source@));
    }
    match load_data(source, &header, stride) {
        Some(data) => {
            proof {
                lemma_decoded_len(source@);
            }
            Ok(Bmp { header, palette_table: palette, data })
        },
        None => Err(DecodeError::UnsupportedBitDepth),
    }
}


fn read_u16_le(b: &[u8], i: usize) -> (r: u16)
    requires
        i + 2 <= b@.len(),
    ensures
        r as int == le16(b@, i as int),
{
    b[i] as u16 + b[i + 1] as u16 * 256
}

fn read_u32_le(b: &[u8], i: usize) -> (r: u32)
    requires
        i + 4 <= b@.len(),
    ensures
        r as int == le32(b@, i as int),
{
    proof {
        assert(b@.len() == b.len());
    }
    let lo = read_u16_le(b, i);
    let hi = read_u16_le(b, i + 2);
    lo as u32 + hi as u32 * 65536
}

fn parse_header(b: &[u8]) -> (h: BmpHeader)
    requires
        b@.len() >= HEADER_LEN,
    ensures
        h == header_spec(b@),
{
    BmpHeader {
        bmp_type: read_u16_le(b, 0),
        size: read_u32_le(b, 2),
        reserved: read_u32_le(b, 6),
        offset: read_u32_le(b, 10),
        header_size: read_u32_le(b, 14),
        width: read_u32_le(b, 18),
        height: read_u32_le(b, 22),
        planes: read_u16_le(b, 26),
        bpp: read_u16_le(b, 28),
        compression: read_u32_le(b, 30),
        size_image: read_u32_le(b, 34),
        xppm: read_u32_le(b, 38),
        yppm: read_u32_le(b, 42),
        colors_used: read_u32_le(b, 46),
        colors_important: read_u32_le(b, 50),
    }
}

} // verus!
