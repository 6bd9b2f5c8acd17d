//! The integrity check of the wire format: CRC-32 in its ISCSI
//! (Castagnoli) variant, provided by the `crc` crate.

use vstd::prelude::*;

verus! {

/// The CRC-32/ISCSI checksum of a byte sequence.
///
/// The checksum is a pure function of the bytes alone; its value is named
/// here rather than restated, and every contract of the codec speaks of
/// this name.
pub uninterp spec fn crc32_iscsi_of(data: Seq<u8>) -> u32;

/// Relies on `crc::Crc::<u32>::checksum` with the `CRC_32_ISCSI` algorithm:
/// a table-driven computation whose result depends on the input bytes alone.
#[verifier::external_body]
pub(crate) fn crc32_iscsi(data: &[u8]) -> (r: u32)
    ensures
        r == crc32_iscsi_of(data@),
{
    crc::Crc::<u32>::new(&crc::CRC_32_ISCSI).checksum(data)
}

} // verus!
