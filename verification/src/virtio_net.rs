//! The legacy virtio network device: queue set-up, the transmit descriptors, and
//! taking received buffers off the used ring and handing them back to the device.
//!
//! Ports and queue memory are the caller's: each step says what to write where.
use vstd::prelude::*;

verus! {

pub const VIRTIO_VENDOR_ID: u16 = 0x1AF4;
pub const VIRTIO_NET_DEVICE_ID: u16 = 0x1000;
/// Bytes of the virtio-net header in front of every frame.
pub const NET_HDR_LEN: u32 = 10;
pub const RX_BUFFER_LEN: u32 = 1536;

/// A descriptor of the queue's table.
#[derive(Debug, Clone, Copy, PartialEq, Eq, Structural)]
pub struct VirtDesc {
    pub addr: u64,
    pub len: u32,
    pub flags: u16,
    pub next: u16,
}

/// The driver's position in one queue of `size` descriptors.
#[derive(Debug, Clone, Copy, PartialEq, Eq, Structural)]
pub struct VirtQueue {
    pub size: u16,
    pub index: u16,
    pub last_used: u16,
}

/// The I/O base from BAR0 (an I/O BAR: the low two bits are flags).
pub fn io_base(bar0: u64) -> (res: u32)
    ensures
        res == (bar0 - bar0 % 4) % 0x1_0000_0000,
{
    ((bar0 - bar0 % 4) % 0x1_0000_0000) as u32
}

/// A queue size the device reports is usable: 1 to 512 descriptors.
pub fn check_queue_size(qsize: u16) -> (res: Result<(), &'static str>)
    ensures
        match res {
            Ok(()) => 1 <= qsize <= 512,
            Err(e) => (qsize == 0 || qsize > 512) && e@ == "Tamaño de cola invalido"@,
        },
{
    if qsize == 0 || qsize > 512 {
        return Err("Tamaño de cola invalido");
    }
    Ok(())
}

/// Byte offsets of the available ring and of the used ring in the queue's three pages.
pub fn queue_layout(qsize: u16) -> (res: (u64, u64))
    ensures
        res.0 == qsize * 16,
        res.1 == 8192,
{
    (qsize as u64 * 16, 8192)
}

/// A receive descriptor: a device-writable buffer of 1536 bytes at `phys`.
pub fn rx_descriptor(phys: u64) -> (res: VirtDesc)
    ensures
        res == (VirtDesc { addr: phys, len: 1536, flags: 2, next: 0 }),
{
    VirtDesc { addr: phys, len: RX_BUFFER_LEN, flags: 2, next: 0 }
}

/// What sending one frame asks of the caller: fill descriptor `head` with `desc`
/// (its `next` is left as it was), put `head` in available-ring slot `head`, then
/// publish `new_avail_idx`.
#[derive(Debug, Clone, Copy, PartialEq, Eq, Structural)]
pub struct TxPost {
    pub head: u16,
    pub desc: VirtDesc,
    pub new_avail_idx: u16,
}

/// What consuming one used buffer asks of the caller: the frame's length after the
/// header (none for a buffer no longer than the header), and the available-ring slot
/// and index that give the buffer back.
#[derive(Debug, Clone, Copy, PartialEq, Eq, Structural)]
pub struct RxRecycle {
    pub frame_len: Option<u32>,
    pub avail_slot: u16,
    pub avail_value: u16,
    pub new_avail_idx: u16,
}

impl VirtQueue {
    pub open spec fn wf(self) -> bool {
        1 <= self.size <= 512
    }

    pub fn new(size: u16) -> (res: Self)
        requires
            1 <= size <= 512,
        ensures
            res.wf(),
            res == (VirtQueue { size, index: 0, last_used: 0 }),
    {
        VirtQueue { size, index: 0, last_used: 0 }
    }

    /// Posts a frame of `len` bytes copied, after a zeroed header, into the buffer at
    /// `phys`; `avail_idx` is the available ring's index as read.
    pub fn post_tx(&mut self, phys: u64, len: u32, avail_idx: u16) -> (res: TxPost)
        requires
            old(self).wf(),
            len + NET_HDR_LEN <= u32::MAX,
        ensures
            final(self).wf(),
            *final(self) == (VirtQueue { index: ((old(self).index + 1) % 0x1_0000) as u16, ..*old(self) }),
            res.head == old(self).index % old(self).size,
            res.desc == (VirtDesc { addr: phys, len: (len + 10) as u32, flags: 0, next: res.desc.next }),
            res.new_avail_idx == (avail_idx + 1) % 0x1_0000,
    {
        let head = self.index % self.size;
        self.index = self.index.wrapping_add(1);
        TxPost {
            head,
            desc: VirtDesc { addr: phys, len: len + NET_HDR_LEN, flags: 0, next: 0 },
            new_avail_idx: avail_idx.wrapping_add(1),
        }
    }

    /// The used-ring slot to read next, when the device has used a buffer since the
    /// last one taken (`used_idx` is the used ring's index as read).
    pub fn rx_pending(&self, used_idx: u16) -> (res: Option<u16>)
        requires
            self.wf(),
        ensures
            res == if self.last_used == used_idx { None::<u16> } else { Some((self.last_used % self.size) as u16) },
    {
        if self.last_used == used_idx { None } else { Some(self.last_used % self.size) }
    }

    /// Takes the used element (`elem_id`, `elem_len`) and gives its descriptor back to
    /// the device; `avail_idx` is the available ring's index as read.
    pub fn rx_complete(&mut self, elem_id: u16, elem_len: u32, avail_idx: u16) -> (res: RxRecycle)
        requires
            old(self).wf(),
        ensures
            final(self).wf(),
            *final(self) == (VirtQueue { last_used: ((old(self).last_used + 1) % 0x1_0000) as u16, ..*old(self) }),
            res.frame_len == if elem_len > 10 { Some((elem_len - 10) as u32) } else { None::<u32> },
            res.avail_slot == avail_idx % old(self).size,
            res.avail_value == elem_id,
            res.new_avail_idx == (avail_idx + 1) % 0x1_0000,
    {
        self.last_used = self.last_used.wrapping_add(1);
        RxRecycle {
            frame_len: if elem_len > NET_HDR_LEN { Some(elem_len - NET_HDR_LEN) } else { None },
            avail_slot: avail_idx % self.size,
            avail_value: elem_id,
            new_avail_idx: avail_idx.wrapping_add(1),
        }
    }
}

/// The MAC of the virtio NIC, when it is the active one.
pub fn get_mac(active: bool, mac: Option<[u8; 6]>) -> (res: Option<[u8; 6]>)
    ensures
        res == if active { mac } else { None::<[u8; 6]> },
{
    if !active { None } else { mac }
}

} // verus!
