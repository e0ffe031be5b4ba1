use tutcommon::dds::{load_texture, DdsFormat, DecodeError};

fn le(v: u32) -> [u8; 4] {
    [v as u8, (v >> 8) as u8, (v >> 16) as u8, (v >> 24) as u8]
}

/// A signature plus 124-byte header with the given fields, payload appended.
fn make_dds(
    height: u32,
    width: u32,
    linear_size: u32,
    mip_count: u32,
    four_cc: &[u8; 4],
    payload: &[u8],
) -> Vec<u8> {
    let mut b = vec![0u8; 128];
    b[0..4].copy_from_slice(b"DDS ");
    b[12..16].copy_from_slice(&le(height));
    b[16..20].copy_from_slice(&le(width));
    b[20..24].copy_from_slice(&le(linear_size));
    b[28..32].copy_from_slice(&le(mip_count));
    b[84..88].copy_from_slice(four_cc);
    b.extend_from_slice(payload);
    b
}

#[test]
fn dds_single_mip_dxt1() {
    let payload: Vec<u8> = (1..=8u8).collect();
    let b = make_dds(4, 4, 8, 1, b"DXT1", &payload);
    let t = load_texture(&b).unwrap();
    assert_eq!(t.width, 4);
    assert_eq!(t.height, 4);
    assert_eq!(t.mip_map_count, 1);
    assert_eq!(t.format, DdsFormat::Bc1);
    assert_eq!(t.mips.len(), 1);
    assert_eq!(t.mips[0].len(), 8);
    assert_eq!(t.mips[0], payload);
}

#[test]
fn dds_truncated_header() {
    let mut b = Vec::new();
    b.extend_from_slice(b"DDS ");
    b.extend_from_slice(&[0u8; 50]);
    assert_eq!(load_texture(&b).unwrap_err(), DecodeError::Truncated);
}

#[test]
fn dds_bad_signature() {
    let b = make_dds(4, 4, 8, 1, b"DXT1", &[0u8; 8]);
    let mut bad = b.clone();
    bad[0..4].copy_from_slice(b"XDDS");
    assert_eq!(load_texture(&bad).unwrap_err(), DecodeError::BadSignature);
}

#[test]
fn dds_short_buffer_is_bad_signature() {
    assert_eq!(load_texture(b"DD").unwrap_err(), DecodeError::BadSignature);
    assert_eq!(load_texture(b"").unwrap_err(), DecodeError::BadSignature);
}

#[test]
fn dds_unsupported_format() {
    let b = make_dds(4, 4, 8, 1, b"DXT2", &[0u8; 8]);
    assert_eq!(load_texture(&b).unwrap_err(), DecodeError::UnsupportedFormat);
}

#[test]
fn dds_payload_shorter_than_linear_size() {
    let b = make_dds(4, 4, 8, 1, b"DXT1", &[0u8; 4]);
    assert_eq!(load_texture(&b).unwrap_err(), DecodeError::Truncated);
}

#[test]
fn dds_two_mips_dxt3() {
    // An 8x8 BC3 texture with two mip levels: 4 blocks of 16 bytes, then
    // 1 block of 16 bytes. With more than one mip level the payload is
    // twice the linear size; the slack after the last level is ignored.
    let payload: Vec<u8> = (0..128u8).collect();
    let b = make_dds(8, 8, 64, 2, b"DXT3", &payload);
    let t = load_texture(&b).unwrap();
    assert_eq!(t.format, DdsFormat::Bc3);
    assert_eq!(t.mip_map_count, 2);
    assert_eq!(t.mips.len(), 2);
    assert_eq!(t.mips[0], payload[0..64].to_vec());
    assert_eq!(t.mips[1], payload[64..80].to_vec());
}

#[test]
fn dds_mip_walk_runs_out_of_payload() {
    // A 16x16 BC1 texture with three mip levels needs 128 + 32 + 8 bytes of
    // blocks, but a linear size of 80 brings only 160 payload bytes.
    let b = make_dds(16, 16, 80, 3, b"DXT1", &[7u8; 160]);
    assert_eq!(load_texture(&b).unwrap_err(), DecodeError::Truncated);
}

#[test]
fn dds_dxt5_block_size() {
    let payload = [3u8; 16];
    let b = make_dds(4, 4, 16, 1, b"DXT5", &payload);
    let t = load_texture(&b).unwrap();
    assert_eq!(t.format, DdsFormat::Bc5);
    assert_eq!(t.mips.len(), 1);
    assert_eq!(t.mips[0].len(), 16);
}

#[test]
fn dds_header_fields_read_little_endian() {
    // Zero mip levels: the walk body never runs, so any dimensions decode.
    let b = make_dds(0x0403_0201, 0x0102_0304, 0, 0, b"DXT1", &[]);
    let t = load_texture(&b).unwrap();
    assert_eq!(t.width, 0x0102_0304);
    assert_eq!(t.height, 0x0403_0201);
    assert_eq!(t.mips.len(), 0);
}

#[test]
fn dds_zero_width_still_walks_height() {
    // With a zero width each level is zero blocks wide; the walk still runs
    // while the height is nonzero and yields empty levels.
    let b = make_dds(4, 0, 0, 1, b"DXT1", &[]);
    let t = load_texture(&b).unwrap();
    assert_eq!(t.mips.len(), 1);
    assert_eq!(t.mips[0].len(), 0);
}

#[test]
fn dds_odd_dimensions_round_up_to_blocks() {
    // A 5x3 BC1 level occupies ceil(5/4) * ceil(3/4) = 2 blocks.
    let payload = [9u8; 16];
    let b = make_dds(3, 5, 16, 1, b"DXT1", &payload);
    let t = load_texture(&b).unwrap();
    assert_eq!(t.mips.len(), 1);
    assert_eq!(t.mips[0].len(), 16);
}
