//! The RTL8139 network card: its transmit descriptors, used in turn, and its receive
//! ring of 8 KiB, in which each packet is a 4-byte header (status, length) followed by
//! the frame and its CRC, padded to a multiple of four bytes.
//!
//! Port I/O and DMA memory are the caller's: `poll_rx` takes what was read from the
//! card's registers and a copy of the receive ring, and says what to write back.
use vstd::prelude::*;

verus! {

pub const VENDOR_ID: u16 = 0x10EC;
pub const DEVICE_ID: u16 = 0x8139;
pub const RX_RING_BYTES: usize = 8192;
pub const TX_BUFFER_SIZE: usize = 1536;
pub const REG_MAC0: u16 = 0x00;
pub const REG_TSD0: u16 = 0x10;
pub const REG_TSAD0: u16 = 0x20;
pub const REG_RBSTART: u16 = 0x30;
pub const REG_CMD: u16 = 0x37;
pub const REG_CAPR: u16 = 0x38;
pub const REG_CBR: u16 = 0x3A;
pub const REG_IMR: u16 = 0x3C;
pub const REG_ISR: u16 = 0x3E;
pub const REG_TCR: u16 = 0x40;
pub const REG_RCR: u16 = 0x44;
pub const REG_CONFIG1: u16 = 0x52;
pub const CMD_RESET: u8 = 0x10;
pub const CMD_RX_ENABLE: u8 = 0x08;
pub const CMD_TX_ENABLE: u8 = 0x04;
/// Receive configuration: accept all, physical-match, multicast and broadcast frames, 8 KiB ring.
pub const RCR_VALUE: u32 = 0x0F;
/// Interrupt mask: receive OK and transmit OK.
pub const IMR_VALUE: u16 = 0x05;
/// Transmit configuration: standard inter-frame gap.
pub const TCR_VALUE: u32 = 0x0300_0000;

/// The driver's state of one card.
#[derive(Debug, Clone, Copy)]
pub struct Rtl8139 {
    pub io_base: u16,
    pub mac: [u8; 6],
    pub rx_buffer: u64,
    pub tx_buffers: [u64; 4],
    pub tx_index: u8,
    pub rx_offset: u16,
}

/// What to do for one frame to send: copy it to `phys`, then write `phys` to the
/// descriptor's address port and `tsd_value` to its status port.
#[derive(Debug, Clone, Copy, PartialEq, Eq, Structural)]
pub struct TxSlot {
    pub index: u8,
    pub phys: u64,
    pub tsad_port: u16,
    pub tsd_port: u16,
    pub tsd_value: u32,
}

/// A transmit status read: still owned by the card, or done (sent, underrun, or neither).
#[derive(Debug, Clone, Copy, PartialEq, Eq, Structural)]
pub enum TxStatus {
    Busy,
    Sent,
    Underrun,
    Done,
}

pub fn tx_status(status: u32) -> (res: TxStatus)
    ensures
        res == if status & 0x8000 == 0 { TxStatus::Busy }
            else if status & 0x2000 != 0 { TxStatus::Sent }
            else if status & 0x4000 != 0 { TxStatus::Underrun }
            else { TxStatus::Done },
{
    if status & 0x8000 == 0 {
        TxStatus::Busy
    } else if status & 0x2000 != 0 {
        TxStatus::Sent
    } else if status & 0x4000 != 0 {
        TxStatus::Underrun
    } else {
        TxStatus::Done
    }
}

/// The byte at position `i` of the receive ring, positions wrapping at 8 KiB.
pub open spec fn ring_at(r: Seq<u8>, i: int) -> u8 {
    r[i % 8192]
}

/// The 16-bit little-endian value at ring position `i`.
pub open spec fn ring_le16(r: Seq<u8>, i: int) -> nat {
    ring_at(r, i) as nat + 256 * ring_at(r, i + 1) as nat
}

/// The read offset after a packet of `length` bytes at `off`: past the header and the
/// packet, rounded up to a multiple of four, wrapping at 8 KiB.
pub open spec fn rx_advance(off: u16, length: nat) -> u16 {
    ((off + (length + 7) / 4 * 4) % 8192) as u16
}

/// The CAPR value for read offset `off`: the offset less 16, modulo 8 KiB.
pub open spec fn capr_for(off: u16) -> u16 {
    (((off + 65520) % 65536) % 8192) as u16
}

/// What a poll asks of the caller.
#[derive(Debug, Clone, PartialEq, Eq)]
pub struct RxOutcome {
    /// The value to write back to ISR to acknowledge it.
    pub isr_ack: Option<u16>,
    /// The value to write to CAPR after consuming a packet.
    pub capr: Option<u16>,
    /// The received frame, without its CRC.
    pub packet: Option<Vec<u8>>,
}

/// The frame of `length` bytes (CRC included) whose header is at `off`.
pub open spec fn rx_frame(r: Seq<u8>, off: u16, length: nat) -> Seq<u8> {
    Seq::new((length - 4) as nat, |i: int| ring_at(r, off + 4 + i))
}

impl Rtl8139 {
    pub open spec fn wf(self) -> bool {
        &&& self.tx_index < 4
        &&& self.rx_offset < 8192
        &&& self.rx_offset % 4 == 0
    }

    /// A driver for the card at I/O ports from `io_base`, before its MAC is read and
    /// its buffers exist.
    pub fn new(io_base: u16) -> (res: Self)
        ensures
            res.wf(),
            res == (Rtl8139 { io_base, mac: [0u8, 0, 0, 0, 0, 0], rx_buffer: 0, tx_buffers: [0u64, 0, 0, 0], tx_index: 0, rx_offset: 0 }),
    {
        Rtl8139 { io_base, mac: [0u8, 0, 0, 0, 0, 0], rx_buffer: 0, tx_buffers: [0u64, 0, 0, 0], tx_index: 0, rx_offset: 0 }
    }

    pub fn get_mac(&self) -> (res: [u8; 6])
        ensures
            res == self.mac,
    {
        self.mac
    }

    /// Takes the next transmit descriptor for a frame of `len` bytes; frames above
    /// 1536 bytes are refused. The length goes to bits 0..12 of the status port.
    pub fn send_packet(&mut self, len: usize) -> (res: Result<TxSlot, &'static str>)
        requires
            old(self).wf(),
            old(self).io_base + 0x30 <= u16::MAX,
        ensures
            final(self).wf(),
            match res {
                Ok(t) => {
                    &&& len <= TX_BUFFER_SIZE
                    &&& t.index == old(self).tx_index
                    &&& t.phys == old(self).tx_buffers[old(self).tx_index as int]
                    &&& t.tsad_port == old(self).io_base + 0x20 + 4 * old(self).tx_index
                    &&& t.tsd_port == old(self).io_base + 0x10 + 4 * old(self).tx_index
                    &&& t.tsd_value == len % 8192
                    &&& *final(self) == (Rtl8139 { tx_index: ((old(self).tx_index + 1) % 4) as u8, ..*old(self) })
                },
                Err(e) => len > TX_BUFFER_SIZE && e@ == "Packet too large"@ && *final(self) == *old(self),
            },
    {
        if len > TX_BUFFER_SIZE {
            return Err("Packet too large");
        }
        let idx = self.tx_index;
        let phys = self.tx_buffers[idx as usize];
        let slot = TxSlot {
            index: idx,
            phys,
            tsad_port: self.io_base + REG_TSAD0 + idx as u16 * 4,
            tsd_port: self.io_base + REG_TSD0 + idx as u16 * 4,
            tsd_value: (len % 8192) as u32,
        };
        self.tx_index = (self.tx_index + 1) % 4;
        Ok(slot)
    }

    /// One receive poll, given ISR, the command register, CBR and a copy of the ring.
    /// A non-zero ISR is acknowledged. Nothing is read while reception is disabled or
    /// the card has written nothing new (CBR at the read offset). Otherwise the packet at
    /// the read offset is consumed, the offset moves past it and CAPR is written; it is
    /// returned if its header has ROK set and a length of 4 to 1518 bytes.
    pub fn poll_rx(&mut self, isr: u16, cmd: u8, cbr: u16, ring: &[u8]) -> (res: RxOutcome)
        requires
            old(self).wf(),
            ring@.len() == RX_RING_BYTES,
        ensures
            final(self).wf(),
            res.isr_ack == if isr != 0 { Some(isr) } else { None::<u16> },
            if cmd & CMD_RX_ENABLE == 0 || old(self).rx_offset == cbr {
                &&& *final(self) == *old(self)
                &&& res.capr is None
                &&& res.packet is None
            } else {
                let off = old(self).rx_offset;
                let status = ring_le16(ring@, off as int);
                let length = ring_le16(ring@, off + 2);
                &&& *final(self) == (Rtl8139 { rx_offset: rx_advance(off, length), ..*old(self) })
                &&& res.capr == Some(capr_for(final(self).rx_offset))
                &&& match res.packet {
                    Some(p) => status % 2 == 1 && 4 <= length <= 1518 && p@ == rx_frame(ring@, off, length),
                    None => status % 2 == 0 || length < 4 || length > 1518,
                }
            },
    {
        let isr_ack = if isr != 0 { Some(isr) } else { None };
        if cmd & CMD_RX_ENABLE == 0 || self.rx_offset == cbr {
            return RxOutcome { isr_ack, capr: None, packet: None };
        }
        let off = self.rx_offset;
        let b0 = ring[off as usize % 8192];
        let b1 = ring[(off as usize + 1) % 8192];
        let b2 = ring[(off as usize + 2) % 8192];
        let b3 = ring[(off as usize + 3) % 8192];
        let status: u32 = b0 as u32 + 256 * b1 as u32;
        let length: u32 = b2 as u32 + 256 * b3 as u32;
        let total: u32 = (length + 7) / 4 * 4;
        let next: u16 = ((off as u32 + total) % 8192) as u16;
        assert(next % 4 == 0) by (nonlinear_arith)
            requires
                next == (off + total) % 8192,
                off % 4 == 0,
                total == (length + 7) / 4 * 4,
        ;
        self.rx_offset = next;
        let capr: u16 = (((next as u32 + 65520) % 65536) % 8192) as u16;
        if status % 2 == 0 || length < 4 || length > 1518 {
            return RxOutcome { isr_ack, capr: Some(capr), packet: None };
        }
        let n = (length - 4) as usize;
        let mut packet: Vec<u8> = Vec::new();
        let mut i: usize = 0;
        while i < n
            invariant
                ring@.len() == 8192,
                n == length - 4,
                length <= 1518,
                off < 8192,
                i <= n,
                packet@ =~= rx_frame(ring@, off, length as nat).subrange(0, i as int),
            decreases n - i,
        {
            packet.push(ring[(off as usize + 4 + i) % 8192]);
            i = i + 1;
        }
        RxOutcome { isr_ack, capr: Some(capr), packet: Some(packet) }
    }
}

/// The receive ring's read offset of the card, zero when there is none.
pub fn get_rx_offset(drv: Option<&Rtl8139>) -> (res: u16)
    ensures
        res == match drv { Some(d) => d.rx_offset, None => 0u16 },
{
    match drv {
        Some(d) => d.rx_offset,
        None => 0,
    }
}

} // verus!
