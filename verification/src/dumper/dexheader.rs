//! The header of a bytecode image: where its fields lie, and how a
//! canonical header is put in front of an image that was found without
//! one.

use crate::codec::{
    le_bytes_u32, le_u32, lemma_le_u32_round_trip, overwrite, read_u32_le, write_u32_le,
};
use vstd::prelude::*;
use vstd::slice::slice_to_vec;

verus! {

/// The size of a standard header, which is also where the string table of
/// a standard image begins.
pub const DEX_HEADER_SIZE: u32 = 0x70;

/// Where the header keeps its own size.
pub const DEX_HEADER_SIZE_OFFSET: usize = 0x24;

/// Where the header keeps the declared size of the file.
pub const DEX_FILE_SIZE_OFFSET: usize = 0x20;

/// Where the header keeps the endian tag.
pub const DEX_ENDIAN_TAG_OFFSET: usize = 0x28;

/// Where the header keeps the offset of the string table.
pub const DEX_STRING_IDS_OFFSET: usize = 0x3c;

/// Where the header keeps the offset of the map section.
pub const DEX_MAP_OFFSET: usize = 0x34;

/// The endian tag of a little-endian image.
pub const DEX_ENDIAN_TAG: u32 = 0x12345678;

/// The endian tag as a reader of the other byte order sees it.
pub const DEX_ENDIAN_TAG_SWAPPED: u32 = 0x78563412;

/// The number of bytes that header synthesis reads or writes: everything
/// up to the end of the endian tag.
pub const DEX_FIXED_REGION: usize = 0x2c;

/// The canonical magic: `dex`, a line feed, the version `035` and a zero.
pub open spec fn dex_magic() -> Seq<u8> {
    seq![0x64u8, 0x65u8, 0x78u8, 0x0au8, 0x30u8, 0x33u8, 0x35u8, 0x00u8]
}

/// An endian tag that a reader of either byte order would accept.
pub open spec fn tag_recognized(tag: int) -> bool {
    tag == DEX_ENDIAN_TAG || tag == DEX_ENDIAN_TAG_SWAPPED
}

/// The endian tag that an image holds.
pub open spec fn endian_tag(dex: Seq<u8>) -> int
    recommends
        dex.len() >= DEX_FIXED_REGION,
{
    le_u32(dex.subrange(DEX_ENDIAN_TAG_OFFSET as int, DEX_FIXED_REGION as int))
}

/// The length of an image as a header can declare it: reduced to 32 bits.
pub open spec fn declared_len(len: usize) -> u32 {
    len as u32
}

/// An image with a canonical header put in place: the magic, the length of
/// the image as the declared file size, the standard header size, and the
/// little-endian tag unless the image holds a recognized one.
pub open spec fn header_fixed(dex: Seq<u8>) -> Seq<u8>
    recommends
        dex.len() >= DEX_FIXED_REGION,
{
    let with_magic = overwrite(dex, 0, dex_magic());
    let with_size = overwrite(
        with_magic,
        DEX_FILE_SIZE_OFFSET as int,
        le_bytes_u32(declared_len(dex.len() as usize)),
    );
    let with_header = overwrite(
        with_size,
        DEX_HEADER_SIZE_OFFSET as int,
        le_bytes_u32(DEX_HEADER_SIZE),
    );
    if tag_recognized(endian_tag(dex)) {
        with_header
    } else {
        overwrite(with_header, DEX_ENDIAN_TAG_OFFSET as int, le_bytes_u32(DEX_ENDIAN_TAG))
    }
}

/// Puts a canonical header in front of an image that was found without
/// one. An image too short to hold the fields that are read and written
/// cannot be repaired.
pub fn fix_dex_header(dex: &[u8]) -> (fixed: Option<Vec<u8>>)
    ensures
        match fixed {
            Some(v) => dex@.len() >= DEX_FIXED_REGION && v@ == header_fixed(dex@),
            None => dex@.len() < DEX_FIXED_REGION,
        },
{
    if dex.len() < DEX_FIXED_REGION {
        return None;
    }
    let mut fixed = slice_to_vec(dex);
    fixed.set(0, 0x64);
    fixed.set(1, 0x65);
    fixed.set(2, 0x78);
    fixed.set(3, 0x0a);
    fixed.set(4, 0x30);
    fixed.set(5, 0x33);
    fixed.set(6, 0x35);
    fixed.set(7, 0x00);
    proof {
        assert(fixed@ =~= overwrite(dex@, 0, dex_magic()));
    }
    let len: u32 = #[verifier::truncate]
    (dex.len() as u32);
    write_u32_le(&mut fixed, DEX_FILE_SIZE_OFFSET, len);
    write_u32_le(&mut fixed, DEX_HEADER_SIZE_OFFSET, DEX_HEADER_SIZE);
    let tag = read_u32_le(fixed.as_slice(), DEX_ENDIAN_TAG_OFFSET);
    proof {
        assert(fixed@.subrange(DEX_ENDIAN_TAG_OFFSET as int, DEX_FIXED_REGION as int)
            =~= dex@.subrange(DEX_ENDIAN_TAG_OFFSET as int, DEX_FIXED_REGION as int));
    }
    if tag != DEX_ENDIAN_TAG && tag != DEX_ENDIAN_TAG_SWAPPED {
        write_u32_le(&mut fixed, DEX_ENDIAN_TAG_OFFSET, DEX_ENDIAN_TAG);
    }
    Some(fixed)
}

/// What header synthesis writes: the canonical magic, the length of the
/// image as declared file size, the standard header size, and an endian
/// tag that is recognized.
pub proof fn lemma_fixed_fields(dex: Seq<u8>)
    requires
        dex.len() >= DEX_FIXED_REGION,
    ensures
        header_fixed(dex).len() == dex.len(),
        header_fixed(dex).subrange(0, 8) == dex_magic(),
        le_u32(
            header_fixed(dex).subrange(DEX_FILE_SIZE_OFFSET as int, DEX_FILE_SIZE_OFFSET + 4),
        ) == declared_len(dex.len() as usize),
        le_u32(
            header_fixed(dex).subrange(DEX_HEADER_SIZE_OFFSET as int, DEX_HEADER_SIZE_OFFSET + 4),
        ) == DEX_HEADER_SIZE,
        tag_recognized(endian_tag(header_fixed(dex))),
{
    let fixed = header_fixed(dex);
    lemma_le_u32_round_trip(declared_len(dex.len() as usize));
    lemma_le_u32_round_trip(DEX_HEADER_SIZE);
    lemma_le_u32_round_trip(DEX_ENDIAN_TAG);
    assert(fixed.subrange(0, 8) =~= dex_magic());
    assert(fixed.subrange(DEX_FILE_SIZE_OFFSET as int, DEX_FILE_SIZE_OFFSET + 4) =~= le_bytes_u32(
        declared_len(dex.len() as usize),
    ));
    assert(fixed.subrange(DEX_HEADER_SIZE_OFFSET as int, DEX_HEADER_SIZE_OFFSET + 4)
        =~= le_bytes_u32(DEX_HEADER_SIZE));
    if tag_recognized(endian_tag(dex)) {
        assert(fixed.subrange(DEX_ENDIAN_TAG_OFFSET as int, DEX_FIXED_REGION as int)
            =~= dex.subrange(DEX_ENDIAN_TAG_OFFSET as int, DEX_FIXED_REGION as int));
    } else {
        assert(fixed.subrange(DEX_ENDIAN_TAG_OFFSET as int, DEX_FIXED_REGION as int)
            =~= le_bytes_u32(DEX_ENDIAN_TAG));
    }
}

/// Header synthesis leaves alone every byte that belongs to none of the
/// four fields it sets: the bytes between the magic and the declared file
/// size, and all bytes after the endian tag.
pub proof fn lemma_fix_preserves_rest(dex: Seq<u8>, i: int)
    requires
        dex.len() >= DEX_FIXED_REGION,
        8 <= i < DEX_FILE_SIZE_OFFSET || DEX_FIXED_REGION <= i < dex.len(),
    ensures
        header_fixed(dex).len() == dex.len(),
        header_fixed(dex)[i] == dex[i],
{
}

/// The endian tag is replaced if and only if the image holds neither the
/// little-endian tag nor its byte-swapped form; a recognized tag, swapped
/// or not, stays as it is.
pub proof fn lemma_tag_rewritten_iff_unrecognized(dex: Seq<u8>)
    requires
        dex.len() >= DEX_FIXED_REGION,
    ensures
        tag_recognized(endian_tag(dex)) <==> header_fixed(dex).subrange(
            DEX_ENDIAN_TAG_OFFSET as int,
            DEX_FIXED_REGION as int,
        ) == dex.subrange(DEX_ENDIAN_TAG_OFFSET as int, DEX_FIXED_REGION as int),
        !tag_recognized(endian_tag(dex)) ==> endian_tag(header_fixed(dex)) == DEX_ENDIAN_TAG,
{
    let fixed = header_fixed(dex);
    let old_tag = dex.subrange(DEX_ENDIAN_TAG_OFFSET as int, DEX_FIXED_REGION as int);
    let new_tag = fixed.subrange(DEX_ENDIAN_TAG_OFFSET as int, DEX_FIXED_REGION as int);
    lemma_le_u32_round_trip(DEX_ENDIAN_TAG);
    if tag_recognized(endian_tag(dex)) {
        assert(new_tag =~= old_tag);
    } else {
        assert(new_tag =~= le_bytes_u32(DEX_ENDIAN_TAG));
        assert(le_u32(new_tag) != le_u32(old_tag));
    }
}

/// Header synthesis is idempotent: applied to its own result it changes
/// nothing.
pub proof fn lemma_fix_idempotent(dex: Seq<u8>)
    requires
        dex.len() >= DEX_FIXED_REGION,
    ensures
        header_fixed(header_fixed(dex)) == header_fixed(dex),
{
    let once = header_fixed(dex);
    lemma_fixed_fields(dex);
    let twice = header_fixed(once);
    assert(twice.len() == once.len());
    assert forall|i: int| 0 <= i < once.len() implies twice[i] == once[i] by {
        if i < 8 {
            assert(once.subrange(0, 8)[i] == once[i]);
        } else if i < DEX_FILE_SIZE_OFFSET {
        } else if i < DEX_HEADER_SIZE_OFFSET {
            assert(once[i] == le_bytes_u32(declared_len(dex.len() as usize))[i
                - DEX_FILE_SIZE_OFFSET]);
        } else if i < DEX_ENDIAN_TAG_OFFSET {
            assert(once[i] == le_bytes_u32(DEX_HEADER_SIZE)[i - DEX_HEADER_SIZE_OFFSET]);
        } else {
        }
    }
    assert(twice =~= once);
}

} // verus!
