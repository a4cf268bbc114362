//! The two buses the Elan touchpad may sit on: a DesignWare I2C controller (memory
//! mapped) and the AMD FCH SMBus controller (I/O ports). This module holds what the
//! driver writes to them and how it reads their answers; the accesses are the caller's.
use vstd::prelude::*;

verus! {

pub const DW_IC_CON: u32 = 0x00;
pub const DW_IC_TAR: u32 = 0x04;
pub const DW_IC_DATA_CMD: u32 = 0x10;
pub const DW_IC_SS_SCL_HCNT: u32 = 0x14;
pub const DW_IC_SS_SCL_LCNT: u32 = 0x18;
pub const DW_IC_INTR_MASK: u32 = 0x28;
pub const DW_IC_TX_TL: u32 = 0x34;
pub const DW_IC_RX_TL: u32 = 0x38;
pub const DW_IC_ENABLE: u32 = 0x6C;
pub const DW_IC_STATUS: u32 = 0x70;
pub const DW_IC_TX_ABRT_SOURCE: u32 = 0x78;
pub const DW_IC_ENABLE_STATUS: u32 = 0x94;
pub const DW_IC_COMP_VERSION: u32 = 0x9C;
pub const DW_CMD_READ: u32 = 0x100;
pub const DW_CMD_RESTART: u32 = 0x200;
pub const DW_CMD_STOP: u32 = 0x400;
pub const ELAN_ADDR: u8 = 0x15;

/// Where DesignWare I2C controllers of Ryzen machines are looked for, in order.
pub open spec fn known_i2c_addresses() -> Seq<usize> {
    seq![0xFED40000usize, 0xFED50000, 0xFED60000, 0xFED70000, 0xFED80000, 0xFED90000, 0xFEDA0000, 0xFEDB0000,
        0xFEDC0000, 0xFEDD0000, 0xFEDE0000, 0xFEDF0000]
}

pub fn i2c_candidates() -> (res: Vec<usize>)
    ensures
        res@ == known_i2c_addresses(),
{
    let v: Vec<usize> = vec![0xFED40000usize, 0xFED50000, 0xFED60000, 0xFED70000, 0xFED80000, 0xFED90000, 0xFEDA0000, 0xFEDB0000,
        0xFEDC0000, 0xFEDD0000, 0xFEDE0000, 0xFEDF0000];
    assert(v@ =~= known_i2c_addresses());
    v
}

/// A controller answers at an address: its version register is neither 0 nor all ones,
/// and its control register is not all ones.
pub fn dw_present(version: u32, con: u32) -> (res: bool)
    ensures
        res == (version != 0 && version != 0xFFFF_FFFF && con != 0xFFFF_FFFF),
{
    !(version == 0 || version == 0xFFFF_FFFF) && con != 0xFFFF_FFFF
}

/// The register writes that set a controller up as master at standard speed with
/// 7-bit addresses, restarts and held STOP, talking to the Elan device (0x15), with
/// 100 kHz timing, zero FIFO thresholds and no interrupts; it is disabled first and
/// enabled last.
pub open spec fn spec_dw_setup() -> Seq<(u32, u32)> {
    seq![(0x6Cu32, 0u32), (0x00, 0x121), (0x04, 0x15), (0x14, 250), (0x18, 250), (0x34, 0), (0x38, 0), (0x28, 0), (0x6C, 1)]
}

pub fn dw_setup() -> (res: Vec<(u32, u32)>)
    ensures
        res@ == spec_dw_setup(),
{
    let v: Vec<(u32, u32)> = vec![(DW_IC_ENABLE, 0), (DW_IC_CON, 0x121), (DW_IC_TAR, 0x15), (DW_IC_SS_SCL_HCNT, 250),
        (DW_IC_SS_SCL_LCNT, 250), (DW_IC_TX_TL, 0), (DW_IC_RX_TL, 0), (DW_IC_INTR_MASK, 0), (DW_IC_ENABLE, 1)];
    assert(v@ =~= spec_dw_setup());
    v
}

/// The DATA_CMD writes of a register read of `n` bytes: the register byte with
/// RESTART, then `n` reads, the last one with STOP.
pub open spec fn spec_dw_read_commands(cmd: u8, n: nat) -> Seq<u32> {
    seq![cmd as u32 | 0x200u32] + Seq::new(n, |i: int| if i == n - 1 { 0x500u32 } else { 0x100u32 })
}

pub fn dw_read_commands(cmd: u8, n: usize) -> (res: Vec<u32>)
    requires
        n >= 1,
    ensures
        res@ == spec_dw_read_commands(cmd, n as nat),
{
    let mut v: Vec<u32> = Vec::new();
    v.push(cmd as u32 | DW_CMD_RESTART);
    let mut i: usize = 0;
    while i < n
        invariant
            i <= n,
            v@ == seq![cmd as u32 | 0x200u32] + Seq::new(i as nat, |k: int| if k == n - 1 { 0x500u32 } else { 0x100u32 }),
        decreases n - i,
    {
        let stop: u32 = if i == n - 1 { DW_CMD_STOP } else { 0 };
        assert(DW_CMD_READ | 0x400u32 == 0x500u32 && DW_CMD_READ | 0u32 == 0x100u32) by (bit_vector);
        v.push(DW_CMD_READ | stop);
        i = i + 1;
        assert(v@ =~= seq![cmd as u32 | 0x200u32] + Seq::new(i as nat, |k: int| if k == n - 1 { 0x500u32 } else { 0x100u32 }));
    }
    v
}

/// The DATA_CMD writes of a one-byte register write: the register, then the byte with STOP.
pub fn dw_write_commands(cmd: u8, data: u8) -> (res: (u32, u32))
    ensures
        res == (cmd as u32, data as u32 | 0x400u32),
{
    (cmd as u32, data as u32 | DW_CMD_STOP)
}

/// A 16-bit value from its low and high bytes.
pub fn le_word(lo: u8, hi: u8) -> (res: u16)
    ensures
        res == lo + 256 * hi,
{
    lo as u16 + 256 * hi as u16
}

/// The Elan device answered on a controller: no transmit abort, and a firmware version
/// that is neither 0 nor all ones.
pub fn elan_found(abort: u32, fw: Option<u16>) -> (res: bool)
    ensures
        res == (abort == 0 && fw is Some && fw->0 != 0 && fw->0 != 0xFFFF),
{
    if abort != 0 {
        return false;
    }
    match fw {
        Some(v) => v != 0 && v != 0xFFFF,
        None => false,
    }
}

pub const SMBHSTSTS: u16 = 0x00;
pub const SMBHSTCNT: u16 = 0x02;
pub const SMBHSTCMD: u16 = 0x03;
pub const SMBHSTADD: u16 = 0x04;
pub const SMBHSTDAT0: u16 = 0x05;
pub const SMBHSTDAT1: u16 = 0x06;
pub const SMBHSTBLKDAT: u16 = 0x07;
pub const AMD_SMBUS_VENDOR: u16 = 0x1022;
pub const AMD_SMBUS_DEVICE: u16 = 0x790b;

/// A status read of the SMBus host while a transaction runs.
#[derive(Debug, Clone, Copy, PartialEq, Eq, Structural)]
pub enum SmbStatus {
    Complete,
    Failed,
    Pending,
}

/// Completion (bit 4) is looked at first, then the error bits (2 and 3).
pub fn smbus_status(sts: u8) -> (res: SmbStatus)
    ensures
        res == if sts & 0x10 != 0 { SmbStatus::Complete } else if sts & 0x0C != 0 { SmbStatus::Failed } else { SmbStatus::Pending },
{
    if sts & 0x10 != 0 {
        SmbStatus::Complete
    } else if sts & 0x0C != 0 {
        SmbStatus::Failed
    } else {
        SmbStatus::Pending
    }
}

/// The host is idle: the busy bit is clear.
pub fn smbus_idle(sts: u8) -> (res: bool)
    ensures
        res == (sts & 1 == 0),
{
    sts & 1 == 0
}

/// The address byte for the Elan device: its address shifted left, with the read bit.
pub fn smbus_address(read: bool) -> (res: u8)
    ensures
        res == 0x2A + if read { 1u8 } else { 0u8 },
{
    if read { 0x2B } else { 0x2A }
}

/// Transaction kinds, with the value written to the control register to start them.
#[derive(Debug, Clone, Copy, PartialEq, Eq, Structural)]
pub enum SmbTransfer {
    ByteData,
    WordData,
    BlockData,
    /// An I2C block read of the given number of bytes.
    I2cBlock(u8),
}

pub fn smbus_control(t: SmbTransfer) -> (res: u8)
    requires
        t matches SmbTransfer::I2cBlock(n) ==> n <= 32,
    ensures
        res == match t {
            SmbTransfer::ByteData => 0x42u8,
            SmbTransfer::WordData => 0x43u8,
            SmbTransfer::BlockData => 0x44u8,
            SmbTransfer::I2cBlock(n) => (0x45 | n) as u8,
        },
{
    match t {
        SmbTransfer::ByteData => 0x42,
        SmbTransfer::WordData => 0x43,
        SmbTransfer::BlockData => 0x44,
        SmbTransfer::I2cBlock(n) => 0x45 | n,
    }
}

/// Bytes an I2C block read asks for: the buffer's length, at most 32.
pub fn i2c_block_count(buf_len: usize) -> (res: u8)
    ensures
        res == if buf_len < 32 { buf_len } else { 32 },
{
    if buf_len < 32 { buf_len as u8 } else { 32 }
}

/// Bytes taken from a block read: the count the device reported, at most the buffer's length.
pub fn block_take(reported: u8, buf_len: usize) -> (res: usize)
    ensures
        res == if (reported as int) < buf_len { reported as int } else { buf_len as int },
{
    if (reported as usize) < buf_len { reported as usize } else { buf_len }
}

/// Status reads before a block transaction gives up: fewer when polling reports.
pub fn smbus_poll_limit(poll_mode: bool) -> (res: u32)
    ensures
        res == if poll_mode { 2000u32 } else { 5000u32 },
{
    if poll_mode { 2000 } else { 5000 }
}

/// The SMBus I/O base from PCI configuration register 0x90, where it is enabled.
pub fn smbus_base_from_config(reg90: u32) -> (res: Option<u16>)
    ensures
        res == if reg90 % 0x1_0000 != 0 && (reg90 % 0x1_0000) % 2 == 1 {
            Some(((reg90 % 0x1_0000) & 0xFFE0) as u16)
        } else {
            None::<u16>
        },
{
    let val = (reg90 % 0x1_0000) as u16;
    if val != 0 && val % 2 == 1 { Some(val & 0xFFE0) } else { None }
}

/// The SMBus I/O base from the FCH power-management decode register, on controller
/// revisions 0x51 and later where it is enabled (bit 4).
pub fn smbus_base_from_pm(rev: u8, pm_data: u32) -> (res: Option<u16>)
    ensures
        res == if rev >= 0x51 && pm_data & 0x10 != 0 { Some(((pm_data % 0x1_0000) as u16) & 0xFF00u16) } else { None::<u16> },
{
    if rev >= 0x51 && pm_data & 0x10 != 0 { Some(((pm_data % 0x1_0000) as u16) & 0xFF00) } else { None }
}

/// The I/O bases probed last, in order; one whose status port does not read 0xFF answers.
pub open spec fn smbus_probe_bases() -> Seq<u16> {
    seq![0x0B00u16, 0x0B20, 0x0E00, 0x0400]
}

pub fn smbus_candidates() -> (res: Vec<u16>)
    ensures
        res@ == smbus_probe_bases(),
{
    let v: Vec<u16> = vec![0x0B00u16, 0x0B20, 0x0E00, 0x0400];
    assert(v@ =~= smbus_probe_bases());
    v
}

} // verus!
