use bmpview::bmp::{load_bmp, Bmp, DecodeError};
use bmpview::vga::Vga18;

fn put16(b: &mut Vec<u8>, v: u16) {
    b.extend_from_slice(&v.to_le_bytes());
}

fn put32(b: &mut Vec<u8>, v: u32) {
    b.extend_from_slice(&v.to_le_bytes());
}

struct Spec {
    bpp: u16,
    width: u32,
    height: u32,
    compression: u32,
    palette: Vec<[u8; 4]>,
    colors_used: Option<u32>,
    pixel_bytes: Vec<u8>,
}

fn spec(bpp: u16, width: u32, height: u32, pixel_bytes: Vec<u8>) -> Spec {
    Spec {
        bpp,
        width,
        height,
        compression: 0,
        palette: Vec::new(),
        colors_used: None,
        pixel_bytes,
    }
}

fn build(s: &Spec) -> Vec<u8> {
    let offset = 54 + 4 * s.palette.len() as u32;
    let size = offset + s.pixel_bytes.len() as u32;
    let mut b = Vec::new();
    b.extend_from_slice(b"BM");
    put32(&mut b, size);
    put32(&mut b, 0);
    put32(&mut b, offset);
    put32(&mut b, 40);
    put32(&mut b, s.width);
    put32(&mut b, s.height);
    put16(&mut b, 1);
    put16(&mut b, s.bpp);
    put32(&mut b, s.compression);
    put32(&mut b, s.pixel_bytes.len() as u32);
    put32(&mut b, 2835);
    put32(&mut b, 2835);
    put32(&mut b, s.colors_used.unwrap_or(s.palette.len() as u32));
    put32(&mut b, 0);
    assert_eq!(b.len(), 54);
    for p in &s.palette {
        b.extend_from_slice(p);
    }
    b.extend_from_slice(&s.pixel_bytes);
    b
}

fn decode_ok(bytes: &[u8]) -> Bmp {
    match load_bmp(bytes) {
        Ok(b) => b,
        Err(e) => panic!("decode failed: {:?}", e),
    }
}

fn decode_err(bytes: &[u8]) -> DecodeError {
    match load_bmp(bytes) {
        Ok(_) => panic!("decode succeeded"),
        Err(e) => e,
    }
}

#[test]
fn size_one_byte_off_is_size_mismatch() {
    let mut bytes = build(&spec(8, 2, 2, vec![5, 7, 0, 0, 3, 9, 0, 0]));
    bytes.push(0);
    assert_eq!(decode_err(&bytes), DecodeError::SizeMismatch);
    bytes.truncate(bytes.len() - 2);
    assert_eq!(decode_err(&bytes), DecodeError::SizeMismatch);
}

#[test]
fn compressed_is_rejected() {
    let mut s = spec(8, 2, 2, vec![5, 7, 0, 0, 3, 9, 0, 0]);
    s.compression = 1;
    assert_eq!(decode_err(&build(&s)), DecodeError::UnsupportedCompression);
}

#[test]
fn eight_bit_rows_come_out_top_first() {
    let bmp = decode_ok(&build(&spec(8, 2, 2, vec![5, 7, 0, 0, 3, 9, 0, 0])));
    assert_eq!(bmp.data, vec![3, 9, 5, 7]);
    assert_eq!(bmp.header.width, 2);
    assert_eq!(bmp.header.height, 2);
    assert_eq!(bmp.header.bpp, 8);
}

#[test]
fn one_bit_groups_read_most_significant_first() {
    let bmp = decode_ok(&build(&spec(1, 3, 1, vec![0b1010_0000, 0, 0, 0])));
    assert_eq!(bmp.data, vec![1, 0, 1]);
}

#[test]
fn two_bit_groups_read_most_significant_first() {
    let bmp = decode_ok(&build(&spec(2, 5, 1, vec![0b11_10_01_00, 0b10_00_00_00, 0, 0])));
    assert_eq!(bmp.data, vec![3, 2, 1, 0, 2]);
}

#[test]
fn four_bit_groups_keep_their_bit_order() {
    let bmp = decode_ok(&build(&spec(4, 3, 2, vec![0xAB, 0xC0, 0, 0, 0x12, 0x34, 0, 0])));
    assert_eq!(bmp.data, vec![1, 2, 3, 0xA, 0xB, 0xC]);
}

#[test]
fn padding_bytes_are_dropped() {
    let bmp = decode_ok(&build(&spec(8, 5, 2, vec![1, 2, 3, 4, 5, 99, 99, 99, 6, 7, 8, 9, 10, 99, 99, 99])));
    assert_eq!(bmp.data, vec![6, 7, 8, 9, 10, 1, 2, 3, 4, 5]);
}

#[test]
fn decoded_length_is_width_times_height() {
    let bmp = decode_ok(&build(&spec(8, 5, 3, vec![1; 24])));
    assert_eq!(bmp.data.len(), 15);
    let bmp = decode_ok(&build(&spec(1, 33, 2, vec![0xFF; 16])));
    assert_eq!(bmp.data.len(), 66);
}

#[test]
fn decoded_values_stay_below_depth() {
    for bpp in [1u16, 2, 4] {
        let bmp = decode_ok(&build(&spec(bpp, 8, 2, vec![0xFF; 8])));
        assert_eq!(bmp.data.len(), 16);
        assert!(bmp.data.iter().all(|&v| (v as u32) == (1u32 << bpp) - 1));
    }
}

#[test]
fn decoding_twice_gives_the_same_image() {
    let s = Spec {
        palette: vec![[1, 2, 3, 0], [200, 100, 50, 0]],
        ..spec(4, 3, 2, vec![0x10, 0x10, 0, 0, 0x01, 0x11, 0, 0])
    };
    let bytes = build(&s);
    let a = decode_ok(&bytes);
    let b = decode_ok(&bytes);
    assert_eq!(a.header, b.header);
    assert_eq!(a.palette_table, b.palette_table);
    assert_eq!(a.data, b.data);
}

#[test]
fn first_stored_row_becomes_last() {
    let mut pixels = vec![0u8; 4];
    pixels.extend_from_slice(&[0u8; 4]);
    pixels.extend_from_slice(&[1u8; 4]);
    let bmp = decode_ok(&build(&spec(8, 4, 3, pixels)));
    assert_eq!(&bmp.data[0..4], &[1, 1, 1, 1]);
    assert_eq!(&bmp.data[8..12], &[0, 0, 0, 0]);
}

#[test]
fn palette_channels_lose_two_low_bits() {
    let s = Spec {
        palette: vec![[0xFF, 0x80, 0x07, 0x55], [0x04, 0x08, 0x0C, 0]],
        ..spec(8, 1, 1, vec![1, 0, 0, 0])
    };
    let bmp = decode_ok(&build(&s));
    assert_eq!(
        bmp.palette_table,
        vec![
            Vga18 { red: 0x01, green: 0x20, blue: 0x3F },
            Vga18 { red: 0x03, green: 0x02, blue: 0x01 },
        ]
    );
    assert_eq!(bmp.header.colors_used, 2);
}

#[test]
fn empty_image_decodes_to_no_pixels() {
    let bmp = decode_ok(&build(&spec(8, 7, 0, vec![])));
    assert!(bmp.data.is_empty());
    let bmp = decode_ok(&build(&spec(4, 0, 3, vec![])));
    assert!(bmp.data.is_empty());
}

#[test]
fn short_buffer_is_truncated_header() {
    let bytes = build(&spec(8, 2, 2, vec![5, 7, 0, 0, 3, 9, 0, 0]));
    assert_eq!(decode_err(&bytes[..53]), DecodeError::TruncatedHeader);
    assert_eq!(decode_err(&[]), DecodeError::TruncatedHeader);
}

#[test]
fn wrong_magic_is_rejected() {
    let mut bytes = build(&spec(8, 2, 2, vec![5, 7, 0, 0, 3, 9, 0, 0]));
    bytes[1] = b'A';
    assert_eq!(decode_err(&bytes), DecodeError::BadMagic);
}

#[test]
fn offset_past_end_is_rejected() {
    let mut bytes = build(&spec(8, 2, 2, vec![5, 7, 0, 0, 3, 9, 0, 0]));
    let len = bytes.len() as u32 + 1;
    bytes[10..14].copy_from_slice(&len.to_le_bytes());
    assert_eq!(decode_err(&bytes), DecodeError::OffsetOutOfRange);
}

#[test]
fn missing_rows_are_data_too_small() {
    let bytes = build(&spec(8, 2, 3, vec![5, 7, 0, 0, 3, 9, 0, 0]));
    assert_eq!(decode_err(&bytes), DecodeError::DataTooSmall);
}

#[test]
fn huge_dimensions_are_data_overflow() {
    // rows of 2^34 - 4 bytes, 2^32 - 1 of them: past any address space
    let bytes = build(&spec(32, u32::MAX, u32::MAX, vec![0; 4]));
    assert_eq!(decode_err(&bytes), DecodeError::DataOverflow);
    // 2^64 - 2^32 bytes fit a 64-bit address space but not this buffer
    let bytes = build(&spec(8, u32::MAX, u32::MAX, vec![0; 4]));
    assert_eq!(decode_err(&bytes), DecodeError::DataTooSmall);
}

#[test]
fn palette_before_buffer_is_rejected() {
    let s = Spec { colors_used: Some(20), ..spec(8, 1, 1, vec![1, 0, 0, 0]) };
    assert_eq!(decode_err(&build(&s)), DecodeError::PaletteOutOfRange);
}

#[test]
fn other_depths_are_unsupported() {
    assert_eq!(decode_err(&build(&spec(24, 1, 1, vec![1, 2, 3, 0]))), DecodeError::UnsupportedBitDepth);
    assert_eq!(decode_err(&build(&spec(3, 1, 1, vec![0, 0, 0, 0]))), DecodeError::UnsupportedBitDepth);
}

#[test]
fn checks_run_in_order() {
    // both the magic and the size are wrong: the magic is reported
    let mut bytes = build(&spec(8, 2, 2, vec![5, 7, 0, 0, 3, 9, 0, 0]));
    bytes[0] = 0;
    bytes.push(0);
    assert_eq!(decode_err(&bytes), DecodeError::BadMagic);
    // compressed and too small: the compression is reported
    let mut s = spec(8, 2, 9, vec![0; 4]);
    s.compression = 2;
    assert_eq!(decode_err(&build(&s)), DecodeError::UnsupportedCompression);
}
