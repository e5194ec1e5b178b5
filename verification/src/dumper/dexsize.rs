//! The true size of a bytecode image, recovered from its map section
//! rather than from the size that its header declares.

use super::dexheader::{
    DEX_FILE_SIZE_OFFSET, DEX_HEADER_SIZE, DEX_MAP_OFFSET, DEX_STRING_IDS_OFFSET,
};
use crate::codec::{le_u32, u32_at};
use vstd::prelude::*;

verus! {

/// The size of an image as its map section gives it: the offset of the
/// map, a 4-byte entry count, and 12 bytes for each entry. There is none
/// where that number does not fit in 32 bits.
pub open spec fn recovered_size(map_off: u32, map_size: u32) -> Option<u32> {
    if map_off + map_size * 12 + 4 <= u32::MAX {
        Some((map_off + map_size * 12 + 4) as u32)
    } else {
        None
    }
}

/// Computes the size of an image from the offset of its map section and
/// the number of entries in it, giving up where the arithmetic overflows.
pub fn recover_size(map_off: u32, map_size: u32) -> (size: Option<u32>)
    ensures
        size == recovered_size(map_off, map_size),
{
    let entries = map_size.checked_mul(12)?;
    let upto = map_off.checked_add(entries)?;
    upto.checked_add(4)
}

/// The recovery of an image's size from four header reads, one state for
/// each read that is still to come.
///
/// The reads are, in order: the declared file size, the offset of the
/// string table (which must be the standard header size), the offset of
/// the map section, and the entry count at the start of the map section.
#[derive(Debug, Clone, Copy, PartialEq, Eq, Structural)]
pub enum SizeProbe {
    FileSize { header: u64 },
    StringIds { header: u64, file_size: u32 },
    MapOffset { header: u64, file_size: u32 },
    MapCount { header: u64, file_size: u32, map_off: u32 },
    Found { file_size: u32, real_size: u32 },
    Abandoned,
}

impl SizeProbe {
    /// The address of the four bytes that the probe needs next; none when
    /// the probe has ended or the address would not fit in 64 bits.
    pub open spec fn wanted(self) -> Option<u64> {
        let address: int = match self {
            SizeProbe::FileSize { header } => header + DEX_FILE_SIZE_OFFSET,
            SizeProbe::StringIds { header, .. } => header + DEX_STRING_IDS_OFFSET,
            SizeProbe::MapOffset { header, .. } => header + DEX_MAP_OFFSET,
            SizeProbe::MapCount { header, map_off, .. } => header + map_off,
            SizeProbe::Found { .. } => -1,
            SizeProbe::Abandoned => -1,
        };
        if 0 <= address <= u64::MAX {
            Some(address as u64)
        } else {
            None
        }
    }

    /// The state after the read that was wanted: `value` is what the four
    /// bytes hold, or nothing if they could not be read.
    pub open spec fn fed(self, value: Option<u32>) -> SizeProbe {
        match (self, value) {
            (SizeProbe::FileSize { header }, Some(v)) => SizeProbe::StringIds {
                header,
                file_size: v,
            },
            (SizeProbe::StringIds { header, file_size }, Some(v)) => if v == DEX_HEADER_SIZE {
                SizeProbe::MapOffset { header, file_size }
            } else {
                SizeProbe::Abandoned
            },
            (SizeProbe::MapOffset { header, file_size }, Some(v)) => SizeProbe::MapCount {
                header,
                file_size,
                map_off: v,
            },
            (SizeProbe::MapCount { file_size, map_off, .. }, Some(v)) => match recovered_size(
                map_off,
                v,
            ) {
                Some(real_size) => SizeProbe::Found { file_size, real_size },
                None => SizeProbe::Abandoned,
            },
            (SizeProbe::Found { file_size, real_size }, _) => SizeProbe::Found {
                file_size,
                real_size,
            },
            _ => SizeProbe::Abandoned,
        }
    }

    /// The declared and the recovered size, once both are known.
    pub open spec fn sizes(self) -> Option<(u32, u32)> {
        match self {
            SizeProbe::Found { file_size, real_size } => Some((file_size, real_size)),
            _ => None,
        }
    }

    /// A probe for the image whose header stands at `header`.
    pub fn new(header: u64) -> (probe: SizeProbe)
        ensures
            probe == (SizeProbe::FileSize { header }),
    {
        SizeProbe::FileSize { header }
    }

    /// The address of the four bytes to read next.
    pub fn next_read(&self) -> (address: Option<u64>)
        ensures
            address == self.wanted(),
    {
        match *self {
            SizeProbe::FileSize { header } => header.checked_add(DEX_FILE_SIZE_OFFSET as u64),
            SizeProbe::StringIds { header, .. } => header.checked_add(
                DEX_STRING_IDS_OFFSET as u64,
            ),
            SizeProbe::MapOffset { header, .. } => header.checked_add(DEX_MAP_OFFSET as u64),
            SizeProbe::MapCount { header, map_off, .. } => header.checked_add(map_off as u64),
            SizeProbe::Found { .. } => None,
            SizeProbe::Abandoned => None,
        }
    }

    /// Takes the outcome of the read that was asked for.
    pub fn feed(self, value: Option<u32>) -> (next: SizeProbe)
        ensures
            next == self.fed(value),
    {
        match (self, value) {
            (SizeProbe::FileSize { header }, Some(v)) => SizeProbe::StringIds {
                header,
                file_size: v,
            },
            (SizeProbe::StringIds { header, file_size }, Some(v)) => if v == DEX_HEADER_SIZE {
                SizeProbe::MapOffset { header, file_size }
            } else {
                SizeProbe::Abandoned
            },
            (SizeProbe::MapOffset { header, file_size }, Some(v)) => SizeProbe::MapCount {
                header,
                file_size,
                map_off: v,
            },
            (SizeProbe::MapCount { file_size, map_off, .. }, Some(v)) => match recover_size(
                map_off,
                v,
            ) {
                Some(real_size) => SizeProbe::Found { file_size, real_size },
                None => SizeProbe::Abandoned,
            },
            (SizeProbe::Found { file_size, real_size }, _) => SizeProbe::Found {
                file_size,
                real_size,
            },
            _ => SizeProbe::Abandoned,
        }
    }

    /// The declared and the recovered size, once both are known.
    pub fn result(&self) -> (sizes: Option<(usize, usize)>)
        ensures
            match sizes {
                Some((f, r)) => self.sizes() == Some((f as u32, r as u32)) && f <= u32::MAX && r
                    <= u32::MAX,
                None => self.sizes() is None,
            },
    {
        match *self {
            SizeProbe::Found { file_size, real_size } => Some(
                (file_size as usize, real_size as usize),
            ),
            _ => None,
        }
    }
}

/// The 32-bit field at `at` in an image, if the image reaches that far.
pub open spec fn field_at(image: Seq<u8>, at: int) -> Option<u32> {
    if 0 <= at && at + 4 <= image.len() {
        Some(le_u32(image.subrange(at, at + 4)) as u32)
    } else {
        None
    }
}

/// What a probe that has come to `probe` arrives at when every read is
/// served from an image whose first byte stands at address zero.
pub open spec fn probe_served(image: Seq<u8>, probe: SizeProbe, reads: nat) -> SizeProbe
    decreases reads,
{
    if reads == 0 {
        probe
    } else {
        match probe.wanted() {
            Some(address) => probe_served(
                image,
                probe.fed(field_at(image, address as int)),
                (reads - 1) as nat,
            ),
            None => probe,
        }
    }
}

/// The declared and the recovered size of the image that a buffer holds
/// from its first byte on.
pub open spec fn guessed_sizes(image: Seq<u8>) -> Option<(u32, u32)> {
    probe_served(image, SizeProbe::FileSize { header: 0 }, 4).sizes()
}

/// Recovers the size of an image from a buffer that holds it from its
/// first byte on: the declared size, which may be stale, and the size that
/// the map section gives. A field that lies outside the buffer counts as
/// unreadable.
pub fn guess_dex_size(image: &[u8]) -> (sizes: Option<(usize, usize)>)
    ensures
        match sizes {
            Some((f, r)) => guessed_sizes(image@) == Some((f as u32, r as u32)) && f <= u32::MAX
                && r <= u32::MAX,
            None => guessed_sizes(image@) is None,
        },
{
    let mut probe = SizeProbe::new(0);
    let mut reads: usize = 0;
    let len = image.len();
    while reads < 4
        invariant
            reads <= 4,
            len == image@.len(),
            guessed_sizes(image@) == probe_served(image@, probe, (4 - reads) as nat).sizes(),
        decreases 4 - reads,
    {
        match probe.next_read() {
            Some(address) => {
                let value = if address <= usize::MAX as u64 {
                    u32_at(image, address as usize)
                } else {
                    None
                };
                proof {
                    assert(value == field_at(image@, address as int));
                    assert(probe_served(image@, probe, (4 - reads) as nat) == probe_served(
                        image@,
                        probe.fed(value),
                        (4 - reads - 1) as nat,
                    ));
                }
                probe = probe.feed(value);
            },
            None => {
                proof {
                    lemma_probe_ended(image@, probe, (4 - reads) as nat);
                }
                return probe.result();
            },
        }
        reads += 1;
    }
    probe.result()
}

proof fn lemma_probe_ended(image: Seq<u8>, probe: SizeProbe, reads: nat)
    requires
        probe.wanted() is None,
    ensures
        probe_served(image, probe, reads) == probe,
{
}

/// The recovered size of a standard image is the offset of its map
/// section, plus 12 bytes for each entry that the map section counts, plus
/// 4, whatever the field of the declared size holds. This covers every
/// buffer that reaches as far as the entry count and whose recovered size
/// fits in 32 bits.
pub proof fn lemma_recovered_size_formula(image: Seq<u8>)
    requires
        image.len() >= DEX_STRING_IDS_OFFSET + 4,
        field_at(image, DEX_STRING_IDS_OFFSET as int) == Some(DEX_HEADER_SIZE),
        field_at(image, field_at(image, DEX_MAP_OFFSET as int)->0 as int) is Some,
        field_at(image, DEX_MAP_OFFSET as int)->0 + 12 * field_at(
            image,
            field_at(image, DEX_MAP_OFFSET as int)->0 as int,
        )->0 + 4 <= u32::MAX,
    ensures
        guessed_sizes(image) matches Some((declared, recovered)) && {
            let map_off = field_at(image, DEX_MAP_OFFSET as int)->0;
            let map_size = field_at(image, map_off as int)->0;
            &&& declared == field_at(image, DEX_FILE_SIZE_OFFSET as int)->0
            &&& recovered == map_off + map_size * 12 + 4
        },
{
    reveal_with_fuel(probe_served, 5);
}

/// The size that a pair of guessed sizes recovers.
pub open spec fn recovered_part(sizes: Option<(u32, u32)>) -> Option<u32> {
    match sizes {
        Some((_, recovered)) => Some(recovered),
        None => None,
    }
}

/// The recovered size does not depend on what the header declares: two
/// buffers that differ in nothing but the field of the declared size
/// recover the same size, or both none. This covers every buffer whose
/// entry count does not lie in that very field.
pub proof fn lemma_recovered_size_ignores_declared(a: Seq<u8>, b: Seq<u8>)
    requires
        a.len() == b.len(),
        forall|i: int|
            0 <= i < a.len() && !(DEX_FILE_SIZE_OFFSET <= i < DEX_FILE_SIZE_OFFSET + 4) ==> a[i]
                == b[i],
        field_at(a, DEX_MAP_OFFSET as int) matches Some(map_off) ==> map_off + 4
            <= DEX_FILE_SIZE_OFFSET || map_off >= DEX_FILE_SIZE_OFFSET + 4,
    ensures
        recovered_part(guessed_sizes(a)) == recovered_part(guessed_sizes(b)),
{
    reveal_with_fuel(probe_served, 5);
    if a.len() >= DEX_STRING_IDS_OFFSET + 4 {
        assert(a.subrange(DEX_STRING_IDS_OFFSET as int, DEX_STRING_IDS_OFFSET + 4) =~= b.subrange(
            DEX_STRING_IDS_OFFSET as int,
            DEX_STRING_IDS_OFFSET + 4,
        ));
        assert(a.subrange(DEX_MAP_OFFSET as int, DEX_MAP_OFFSET + 4) =~= b.subrange(
            DEX_MAP_OFFSET as int,
            DEX_MAP_OFFSET + 4,
        ));
        let map_off = field_at(a, DEX_MAP_OFFSET as int)->0 as int;
        if map_off + 4 <= a.len() {
            assert(a.subrange(map_off, map_off + 4) =~= b.subrange(map_off, map_off + 4));
        }
    }
}

} // verus!
