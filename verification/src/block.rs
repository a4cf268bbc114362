//! Block devices of 512-byte sectors.
use vstd::prelude::*;

verus! {

/// The size of a sector in bytes.
pub const SECTOR_SIZE: usize = 512;

/// A device read and written in whole sectors (USB mass storage, NVMe, ATA disks).
///
/// Its contents are modelled sector by sector. A read that succeeds gives the sectors the
/// device holds, and a write that succeeds replaces them; what a failed write left on the
/// medium is not modelled. A read of one or more sectors that the device can all read
/// succeeds.
pub trait BlockDevice {
    /// The bytes of sector `lba` as the device holds them. Devices verified here give
    /// their own model; for any other device it is left unspecified.
    closed spec fn sector(&self, lba: int) -> Seq<u8> {
        vstd::pervasive::arbitrary()
    }

    /// Reads `count` sectors from `lba` into the front of `buffer`; the rest of the
    /// buffer is left as it was.
    /// Whether sector `lba` can be read. Devices verified here give their own model; for
    /// any other device it is left unspecified.
    closed spec fn readable(&self, lba: int) -> bool {
        false
    }

    fn read(&self, lba: u64, count: u16, buffer: &mut [u8]) -> (res: Result<(), &'static str>)
        ensures
            count >= 1 && (forall|k: int| 0 <= k < count ==> #[trigger] self.readable(lba + k))
                && count * SECTOR_SIZE <= old(buffer)@.len() ==> res is Ok,
            final(buffer)@.len() == old(buffer)@.len(),
            res is Ok ==> count * SECTOR_SIZE <= old(buffer)@.len(),
            res is Ok ==> forall|k: int| 0 <= k < count ==>
                #[trigger] final(buffer)@.subrange(k * 512, k * 512 + 512) == self.sector(lba + k),
            res is Ok ==> forall|i: int| count * 512 <= i < old(buffer)@.len() ==> final(buffer)@[i] == old(buffer)@[i],
    ;

    /// Writes `count` sectors from the front of `buffer` at `lba`.
    fn write(&mut self, lba: u64, count: u16, buffer: &[u8]) -> (res: Result<(), &'static str>)
        ensures
            res is Ok ==> count * SECTOR_SIZE <= buffer@.len(),
            res is Ok ==> forall|l: int| #[trigger] final(self).sector(l) == if lba <= l < lba + count {
                buffer@.subrange((l - lba) * 512, (l - lba) * 512 + 512)
            } else {
                old(self).sector(l)
            },
    ;

    /// The number of sectors of the device.
    fn capacity(&self) -> u64;
}

} // verus!
