use vstd::prelude::*;

verus! {

/// The IEEE CRC-32 (the checksum of PNG, zlib and Ethernet) of a byte sequence.
pub uninterp spec fn crc32_ieee(bytes: Seq<u8>) -> u32;

/// Relies on `crc::crc32::checksum_ieee`, which computes the IEEE CRC-32 of the
/// bytes from them alone.
#[verifier::external_body]
pub(crate) fn checksum_ieee(bytes: &[u8]) -> (r: u32)
    ensures
        r == crc32_ieee(bytes@),
{
    crc::crc32::checksum_ieee(bytes)
}

} // verus!
