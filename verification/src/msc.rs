//! USB mass-storage devices on the generic xHCI driver: the SCSI commands used to
//! bring one up (TEST UNIT READY, INQUIRY, READ CAPACITY), how a command's status is
//! judged, and the device's capacity.
//!
//! The bulk transfers themselves are the caller's.
use vstd::prelude::*;
use crate::block::BlockDevice;
use crate::usb::{CommandBlockWrapper, CommandStatusWrapper, CBW_SIGNATURE, CSW_SIGNATURE};

verus! {

/// The tag every command of this driver carries.
pub const MSC_TAG: u32 = 0x9999_9999;
pub const SCSI_TEST_UNIT_READY: u8 = 0x00;
pub const SCSI_INQUIRY: u8 = 0x12;
pub const SCSI_READ_CAPACITY_10: u8 = 0x25;

/// A mass-storage device reached through controller `xhci_idx`.
pub struct MscDevice {
    pub slot: u8,
    pub xhci_idx: usize,
    pub bulk_in_dci: u8,
    pub bulk_out_dci: u8,
    pub max_packet_size: u16,
    pub capacity_blocks: u64,
    pub block_size: u32,
}

/// The command block of a command without parameters except INQUIRY's allocation
/// length (byte 4), and its length: 10 bytes for READ CAPACITY (10), else 6.
pub open spec fn spec_scsi_cb(cmd: u8, len: u32) -> (Seq<u8>, u8) {
    let cb = Seq::new(16, |i: int| if i == 0 { cmd } else if i == 4 && cmd == 0x12 { (len % 256) as u8 } else { 0u8 });
    (cb, if cmd == 0x25 { 10u8 } else { 6u8 })
}

/// How a command ended.
#[derive(Debug, Clone, Copy, PartialEq, Eq, Structural)]
pub enum ScsiOutcome {
    Passed,
    /// The status wrapper came back with this non-zero status.
    Failed(u8),
    /// No valid status wrapper: the transfer failed, or the signature or tag is wrong.
    NoStatus,
}

/// Judges a command from the status transfer: whether it succeeded, and the wrapper read.
pub open spec fn spec_scsi_outcome(received: bool, csw: CommandStatusWrapper, tag: u32) -> ScsiOutcome {
    if !(received && csw.d_csw_signature == CSW_SIGNATURE && csw.d_csw_tag == tag) {
        ScsiOutcome::NoStatus
    } else if csw.b_csw_status == 0 {
        ScsiOutcome::Passed
    } else {
        ScsiOutcome::Failed(csw.b_csw_status)
    }
}

pub fn scsi_outcome(received: bool, csw: &CommandStatusWrapper, tag: u32) -> (res: ScsiOutcome)
    ensures
        res == spec_scsi_outcome(received, *csw, tag),
{
    if !(received && csw.d_csw_signature == CSW_SIGNATURE && csw.d_csw_tag == tag) {
        ScsiOutcome::NoStatus
    } else if csw.b_csw_status == 0 {
        ScsiOutcome::Passed
    } else {
        ScsiOutcome::Failed(csw.b_csw_status)
    }
}

impl MscDevice {
    pub fn new(xhci_idx: usize, slot: u8, bulk_in: u8, bulk_out: u8, mps: u16) -> (res: Self)
        ensures
            res.slot == slot && res.xhci_idx == xhci_idx,
            res.bulk_in_dci == bulk_in && res.bulk_out_dci == bulk_out,
            res.max_packet_size == mps,
            res.capacity_blocks == 0 && res.block_size == 0,
    {
        MscDevice { slot, xhci_idx, bulk_in_dci: bulk_in, bulk_out_dci: bulk_out, max_packet_size: mps, capacity_blocks: 0, block_size: 0 }
    }

    /// The wrapper of SCSI command `cmd` expecting `len` bytes back: tag `MSC_TAG`,
    /// data towards the host, LUN 0.
    pub fn command_wrapper(cmd: u8, len: u32) -> (res: CommandBlockWrapper)
        ensures
            res.d_cbw_signature == CBW_SIGNATURE && res.d_cbw_tag == MSC_TAG,
            res.d_cbw_data_transfer_length == len,
            res.bm_cbw_flags == 0x80 && res.b_cbw_lun == 0,
            res.cbw_cb@ == spec_scsi_cb(cmd, len).0,
            res.b_cbw_cb_length == spec_scsi_cb(cmd, len).1,
    {
        let b4: u8 = if cmd == SCSI_INQUIRY { (len % 256) as u8 } else { 0 };
        let cb: [u8; 16] = [cmd, 0, 0, 0, b4, 0, 0, 0, 0, 0, 0, 0, 0, 0, 0, 0];
        let cb_len: u8 = if cmd == SCSI_INQUIRY {
            6
        } else if cmd == SCSI_READ_CAPACITY_10 {
            10
        } else {
            6
        };
        assert(cb@ =~= spec_scsi_cb(cmd, len).0);
        CommandBlockWrapper {
            d_cbw_signature: CBW_SIGNATURE,
            d_cbw_tag: MSC_TAG,
            d_cbw_data_transfer_length: len,
            bm_cbw_flags: 0x80,
            b_cbw_lun: 0,
            b_cbw_cb_length: cb_len,
            cbw_cb: cb,
        }
    }

    /// Records the READ CAPACITY (10) answer: the last block's address and the block
    /// length, both big-endian; the capacity is one more block than the last address.
    pub fn set_capacity(&mut self, cap: &[u8])
        requires
            cap@.len() >= 8,
        ensures
            final(self).capacity_blocks == cap@[0] as nat * 0x100_0000 + cap@[1] as nat * 0x1_0000 + cap@[2] as nat * 0x100 + cap@[3] as nat + 1,
            final(self).block_size == cap@[4] as nat * 0x100_0000 + cap@[5] as nat * 0x1_0000 + cap@[6] as nat * 0x100 + cap@[7] as nat,
            final(self).slot == old(self).slot && final(self).xhci_idx == old(self).xhci_idx,
            final(self).bulk_in_dci == old(self).bulk_in_dci && final(self).bulk_out_dci == old(self).bulk_out_dci,
            final(self).max_packet_size == old(self).max_packet_size,
    {
        let last_lba: u32 = cap[0] as u32 * 0x100_0000 + cap[1] as u32 * 0x1_0000 + cap[2] as u32 * 0x100 + cap[3] as u32;
        let block_len: u32 = cap[4] as u32 * 0x100_0000 + cap[5] as u32 * 0x1_0000 + cap[6] as u32 * 0x100 + cap[7] as u32;
        self.capacity_blocks = last_lba as u64 + 1;
        self.block_size = block_len;
    }

    /// Block reads are not offered through this driver: they always fail.
    pub fn read_blocks(&self, lba: u64, count: u16, buffer: &mut [u8]) -> (res: bool)
        ensures
            !res,
            final(buffer)@ == old(buffer)@,
    {
        false
    }

    /// Block writes are not offered through this driver: they always fail.
    pub fn write_blocks(&self, lba: u64, count: u16, buffer: &[u8]) -> (res: bool)
        ensures
            !res,
    {
        false
    }
}

/// Adds a device to the registered mass-storage devices.
pub fn register(devices: &mut Vec<MscDevice>, dev: MscDevice)
    ensures
        final(devices)@ == old(devices)@.push(dev),
{
    devices.push(dev);
}

impl BlockDevice for MscDevice {
    /// Nothing is read from or written to the medium through this driver.
    open spec fn sector(&self, lba: int) -> Seq<u8> {
        Seq::empty()
    }

    /// No sector can be read through it.
    open spec fn readable(&self, lba: int) -> bool {
        false
    }

    /// Block reads are not carried out over the bulk pipes: every read fails, and the
    /// buffer is left as it was.
    fn read(&self, lba: u64, count: u16, buffer: &mut [u8]) -> (res: Result<(), &'static str>)
        ensures
            res matches Err(e) && e@ == "MSC read failed"@,
            final(buffer)@ == old(buffer)@,
    {
        assert(!self.readable(lba + 0int));
        if self.read_blocks(lba, count, buffer) {
            Ok(())
        } else {
            Err("MSC read failed")
        }
    }

    /// Block writes are not carried out over the bulk pipes: every write fails.
    fn write(&mut self, lba: u64, count: u16, buffer: &[u8]) -> (res: Result<(), &'static str>)
        ensures
            res matches Err(e) && e@ == "MSC write failed"@,
    {
        if self.write_blocks(lba, count, buffer) {
            Ok(())
        } else {
            Err("MSC write failed")
        }
    }

    fn capacity(&self) -> u64 {
        self.capacity_blocks
    }
}

} // verus!
