//! DDS (DirectDraw Surface) texture decoding.
//!
//! A DDS file starts with the four ASCII bytes `"DDS "`, followed by a
//! 124-byte header of little-endian 32-bit fields, followed by the pixel
//! payload: the block-compressed mip levels, concatenated in order.
//! `load_texture` checks the signature and the header, maps the
//! four-character compression tag to a block format, and slices the payload
//! into its mip levels.

use vstd::prelude::*;
use vstd::slice::{slice_subrange, slice_to_vec};

verus! {

/// Four-character tag of BC1 ("DXT1") data, as a little-endian integer.
pub const FOURCC_DXT1: u32 = 0x3154_5844;

/// Four-character tag of BC3 ("DXT3") data, as a little-endian integer.
pub const FOURCC_DXT3: u32 = 0x3354_5844;

/// Four-character tag of BC5 ("DXT5") data, as a little-endian integer.
pub const FOURCC_DXT5: u32 = 0x3554_5844;

/// A block-compression format of the pixel payload.
#[derive(Clone, Copy, Debug, PartialEq, Eq, Structural)]
pub enum DdsFormat {
    /// 8 bytes for each 4x4 pixel block (tag "DXT1").
    Bc1,
    /// 16 bytes for each 4x4 pixel block (tag "DXT3").
    Bc3,
    /// 16 bytes for each 4x4 pixel block (tag "DXT5").
    Bc5,
}

/// Why a byte buffer failed to decode as a DDS texture.
#[derive(Clone, Copy, Debug, PartialEq, Eq, Structural)]
pub enum DecodeError {
    /// The buffer does not begin with the four bytes `"DDS "`.
    BadSignature,
    /// The buffer ends before the header or the pixel payload is complete.
    Truncated,
    /// The four-character compression tag is none of "DXT1", "DXT3", "DXT5".
    UnsupportedFormat,
}

/// Mathematical content of a decoded texture.
pub ghost struct DdsView {
    /// Width in pixels of mip level 0.
    pub width: nat,
    /// Height in pixels of mip level 0.
    pub height: nat,
    /// Mip level count stated by the header.
    pub mip_map_count: nat,
    /// Block-compression format of the payload.
    pub format: DdsFormat,
    /// The block data of each mip level, in order from level 0.
    pub mips: Seq<Seq<u8>>,
}

/// A decoded texture: header metadata plus the block data of each mip level,
/// ready for upload to a graphics API.
#[derive(Debug)]
pub struct TextureDescriptor {
    /// Width in pixels of mip level 0.
    pub width: u32,
    /// Height in pixels of mip level 0.
    pub height: u32,
    /// Mip level count stated by the header.
    pub mip_map_count: u32,
    /// Block-compression format of the payload.
    pub format: DdsFormat,
    /// The block data of each mip level, in order from level 0.
    pub mips: Vec<Vec<u8>>,
}

impl View for TextureDescriptor {
    type V = DdsView;

    open spec fn view(&self) -> DdsView {
        DdsView {
            width: self.width as nat,
            height: self.height as nat,
            mip_map_count: self.mip_map_count as nat,
            format: self.format,
            mips: self.mips@.map_values(|m: Vec<u8>| m@),
        }
    }
}

/// The little-endian 32-bit unsigned integer stored at offset `i` of `b`.
pub open spec fn le32(b: Seq<u8>, i: int) -> nat
    recommends
        0 <= i,
        i + 4 <= b.len(),
{
    (b[i] as nat) + 0x100 * (b[i + 1] as nat) + 0x10000 * (b[i + 2] as nat) + 0x1000000 * (b[i
        + 3] as nat)
}

/// Relies on byteorder::LittleEndian::read_u32: the little-endian 32-bit
/// integer formed from the four bytes of the slice at `off`.
#[verifier::external_body]
fn read_u32_at(b: &[u8], off: usize) -> (r: u32)
    requires
        off + 4 <= b@.len(),
    ensures
        r == le32(b@, off as int),
{
    <byteorder::LittleEndian as byteorder::ByteOrder>::read_u32(&b[off..])
}

/// Does the buffer begin with the ASCII signature `"DDS "`?
pub open spec fn has_signature(b: Seq<u8>) -> bool {
    b.len() >= 4 && b[0] == 68u8 && b[1] == 68u8 && b[2] == 83u8 && b[3] == 32u8
}

/// Height field of the header: bytes 8..12 of the header, which follows the
/// 4-byte signature.
pub open spec fn spec_height(b: Seq<u8>) -> nat {
    le32(b, 12)
}

/// Width field of the header: bytes 12..16 of the header.
pub open spec fn spec_width(b: Seq<u8>) -> nat {
    le32(b, 16)
}

/// Linear-size field of the header: bytes 16..20 of the header; the byte
/// size of mip level 0.
pub open spec fn spec_linear_size(b: Seq<u8>) -> nat {
    le32(b, 20)
}

/// Mip-map-count field of the header: bytes 24..28 of the header.
pub open spec fn spec_mip_count(b: Seq<u8>) -> nat {
    le32(b, 28)
}

/// Four-character compression tag of the header: bytes 80..84 of the header.
pub open spec fn spec_four_cc(b: Seq<u8>) -> nat {
    le32(b, 84)
}

/// The block format that a four-character tag names, if any.
pub open spec fn format_of(four_cc: nat) -> Option<DdsFormat> {
    if four_cc == FOURCC_DXT1 {
        Some(DdsFormat::Bc1)
    } else if four_cc == FOURCC_DXT3 {
        Some(DdsFormat::Bc3)
    } else if four_cc == FOURCC_DXT5 {
        Some(DdsFormat::Bc5)
    } else {
        None
    }
}

/// Bytes for each 4x4 pixel block of a format.
pub open spec fn spec_block_size(f: DdsFormat) -> nat {
    match f {
        DdsFormat::Bc1 => 8,
        DdsFormat::Bc3 => 16,
        DdsFormat::Bc5 => 16,
    }
}

/// Byte size of the pixel payload that the header asks for: twice the
/// linear size when more than one mip level is present.
pub open spec fn spec_payload_size(b: Seq<u8>) -> nat {
    if spec_mip_count(b) > 1 {
        2 * spec_linear_size(b)
    } else {
        spec_linear_size(b)
    }
}

/// Byte size of one mip level of `w` by `h` pixels: whole 4x4 blocks,
/// dimensions rounded up.
pub open spec fn mip_size(w: nat, h: nat, bs: nat) -> nat {
    ((w + 3) / 4) * ((h + 3) / 4) * bs
}

/// The mip levels sliced from `payload` starting at `off`, walking from a
/// `w` by `h` level through at most `count` levels, halving the dimensions
/// after each; `None` when the payload runs out before the walk ends.
pub open spec fn mips_of(payload: Seq<u8>, w: nat, h: nat, count: nat, bs: nat, off: nat) -> Option<
    Seq<Seq<u8>>,
>
    decreases count,
{
    if count == 0 || (w == 0 && h == 0) {
        Some(Seq::empty())
    } else {
        let sz = mip_size(w, h, bs);
        if off + sz > payload.len() {
            None
        } else {
            match mips_of(payload, w / 2, h / 2, (count - 1) as nat, bs, off + sz) {
                None => None,
                Some(rest) => Some(
                    seq![payload.subrange(off as int, (off + sz) as int)] + rest,
                ),
            }
        }
    }
}

/// What decoding a byte buffer as a DDS texture yields: the decoded texture,
/// or the first failure in the order signature, header, format tag, payload.
pub open spec fn spec_decode(b: Seq<u8>) -> Result<DdsView, DecodeError> {
    if !has_signature(b) {
        Err(DecodeError::BadSignature)
    } else if b.len() < 128 {
        Err(DecodeError::Truncated)
    } else {
        match format_of(spec_four_cc(b)) {
            None => Err(DecodeError::UnsupportedFormat),
            Some(fmt) => {
                let bufsize = spec_payload_size(b);
                if b.len() - 128 < bufsize {
                    Err(DecodeError::Truncated)
                } else {
                    let payload = b.subrange(128, 128 + bufsize as int);
                    match mips_of(
                        payload,
                        spec_width(b),
                        spec_height(b),
                        spec_mip_count(b),
                        spec_block_size(fmt),
                        0,
                    ) {
                        None => Err(DecodeError::Truncated),
                        Some(mips) => Ok(
                            DdsView {
                                width: spec_width(b),
                                height: spec_height(b),
                                mip_map_count: spec_mip_count(b),
                                format: fmt,
                                mips,
                            },
                        ),
                    }
                }
            },
        }
    }
}

/// Decode a DDS file held in a byte buffer.
///
/// Returns the texture whose content `spec_decode` gives for the buffer, or
/// the error it gives: `BadSignature` if and only if the buffer does not
/// begin with `"DDS "`; otherwise `UnsupportedFormat` if and only if the
/// header is complete but carries an unknown compression tag; otherwise
/// `Truncated` if and only if the buffer ends before the header, the
/// payload, or some mip level is complete.
#[verifier::loop_isolation(false)]
pub fn load_texture(bytes: &[u8]) -> (r: Result<TextureDescriptor, DecodeError>)
    ensures
        spec_decode(bytes@) is Ok ==> r is Ok && r->Ok_0@ == spec_decode(bytes@)->Ok_0,
        spec_decode(bytes@) is Err ==> r is Err && r->Err_0 == spec_decode(bytes@)->Err_0,
{
    if bytes.len() < 4 || bytes[0] != 68 || bytes[1] != 68 || bytes[2] != 83 || bytes[3] != 32 {
        return Err(DecodeError::BadSignature);
    }
    if bytes.len() < 128 {
        return Err(DecodeError::Truncated);
    }
    let height = read_u32_at(bytes, 12);
    let width = read_u32_at(bytes, 16);
    let linear_size = read_u32_at(bytes, 20);
    let mip_map_count = read_u32_at(bytes, 28);
    let four_cc = read_u32_at(bytes, 84);

    let format = if four_cc == FOURCC_DXT1 {
        DdsFormat::Bc1
    } else if four_cc == FOURCC_DXT3 {
        DdsFormat::Bc3
    } else if four_cc == FOURCC_DXT5 {
        DdsFormat::Bc5
    } else {
        return Err(DecodeError::UnsupportedFormat);
    };
    let block_size: u64 = if four_cc == FOURCC_DXT1 {
        8
    } else {
        16
    };
    assert(block_size == spec_block_size(format));

    let bufsize: u64 = if mip_map_count > 1 {
        2 * (linear_size as u64)
    } else {
        linear_size as u64
    };
    assert(bufsize == spec_payload_size(bytes@));
    if ((bytes.len() - 128) as u64) < bufsize {
        return Err(DecodeError::Truncated);
    }
    let payload_len: usize = bufsize as usize;
    let payload: &[u8] = slice_subrange(bytes, 128, 128 + payload_len);

    let ghost full = mips_of(
        payload@,
        width as nat,
        height as nat,
        mip_map_count as nat,
        block_size as nat,
        0,
    );

    let mut mips: Vec<Vec<u8>> = Vec::new();
    let mut w = width;
    let mut h = height;
    let mut level: u32 = 0;
    let mut offset: usize = 0;
    while level < mip_map_count && (w > 0 || h > 0)
        invariant
            level <= mip_map_count,
            offset <= payload@.len(),
            payload@.len() <= u64::MAX,
            block_size == 8 || block_size == 16,
            (match mips_of(
                payload@,
                w as nat,
                h as nat,
                (mip_map_count - level) as nat,
                block_size as nat,
                offset as nat,
            ) {
                None => full is None,
                Some(rest) => full == Some(mips@.map_values(|m: Vec<u8>| m@) + rest),
            }),
        decreases mip_map_count - level,
    {
        proof {
            let a = ((w as int) + 3) / 4;
            let b = ((h as int) + 3) / 4;
            assert(0 <= a <= 0x4000_0000 && 0 <= b <= 0x4000_0000);
            assert(a * b <= 0x1000_0000_0000_0000) by (nonlinear_arith)
                requires
                    0 <= a <= 0x4000_0000,
                    0 <= b <= 0x4000_0000,
            ;
            assert(a * b * (block_size as int) <= 0x1000_0000_0000_0000 * 16) by (nonlinear_arith)
                requires
                    0 <= a * b <= 0x1000_0000_0000_0000,
                    0 < block_size <= 16,
            ;
        }
        let size128: u128 = (((w as u128) + 3) / 4) * (((h as u128) + 3) / 4) * (
        block_size as u128);
        assert(size128 == mip_size(w as nat, h as nat, block_size as nat));
        if size128 > ((payload.len() - offset) as u128) {
            assert(mips_of(
                payload@,
                w as nat,
                h as nat,
                (mip_map_count - level) as nat,
                block_size as nat,
                offset as nat,
            ) is None);
            return Err(DecodeError::Truncated);
        }
        let size: usize = size128 as usize;
        let mip: Vec<u8> = slice_to_vec(slice_subrange(payload, offset, offset + size));
        let ghost old_mips = mips@.map_values(|m: Vec<u8>| m@);
        mips.push(mip);
        assert(mips@.map_values(|m: Vec<u8>| m@) =~= old_mips + seq![
            payload@.subrange(offset as int, offset + size),
        ]);
        proof {
            let next = mips_of(
                payload@,
                (w / 2) as nat,
                (h / 2) as nat,
                (mip_map_count - level - 1) as nat,
                block_size as nat,
                (offset + size) as nat,
            );
            match next {
                Some(rest) => {
                    assert((old_mips + seq![payload@.subrange(offset as int, offset + size)])
                        + rest =~= old_mips + (seq![
                        payload@.subrange(offset as int, offset + size),
                    ] + rest));
                },
                None => {},
            }
        }
        offset = offset + size;
        w = w / 2;
        h = h / 2;
        level = level + 1;
    }
    assert(mips_of(
        payload@,
        w as nat,
        h as nat,
        (mip_map_count - level) as nat,
        block_size as nat,
        offset as nat,
    ) == Some(Seq::<Seq<u8>>::empty()));
    assert(full == Some(mips@.map_values(|m: Vec<u8>| m@))) by {
        assert(mips@.map_values(|m: Vec<u8>| m@) + Seq::<Seq<u8>>::empty() =~= mips@.map_values(
            |m: Vec<u8>| m@,
        ));
    }

    let descriptor = TextureDescriptor { width, height, mip_map_count, format, mips };
    assert(descriptor@ == spec_decode(bytes@)->Ok_0);
    Ok(descriptor)
}

} // verus!
