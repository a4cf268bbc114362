//! The xHCI rings as seen by the driver: where the next TRB goes, when the Link TRB is
//! written and the producer cycle flips, and when an event TRB belongs to the consumer.
//! The TRBs themselves are written to and read from the rings' memory by the caller.
use vstd::prelude::*;

verus! {

/// The raw words of a Link TRB pointing at `ring_phys`, with Toggle Cycle set, as
/// `xhci::ring::trb::Link` builds it: `Link::new()` puts the Link type (6) in bits
/// 10..=15 of word 3, `set_ring_segment_pointer` writes the address's low and high halves
/// to words 0 and 1, `set_toggle_cycle` sets bit 1 of word 3, and `into_raw` returns the
/// words. The address must be 16-byte aligned (the crate panics otherwise).
#[verifier::external_body]
fn link_trb(ring_phys: u64) -> (res: [u32; 4])
    requires
        ring_phys % 16 == 0,
    ensures
        res[0] == ring_phys % 0x1_0000_0000,
        res[1] == ring_phys / 0x1_0000_0000,
        res[2] == 0,
        res[3] == 6 * 1024 + 2,
{
    let mut link = xhci::ring::trb::Link::new();
    link.set_ring_segment_pointer(ring_phys);
    link.set_toggle_cycle();
    link.into_raw()
}

/// A TRB with its cycle bit (bit 0 of word 3) set to `cycle`.
pub open spec fn with_cycle(raw: [u32; 4], cycle: bool) -> [u32; 4] {
    [raw[0], raw[1], raw[2], if cycle { raw[3] | 1 } else { raw[3] & !1u32 }]
}

fn set_cycle(raw: [u32; 4], cycle: bool) -> (res: [u32; 4])
    ensures
        res == with_cycle(raw, cycle),
{
    let w3 = if cycle { raw[3] | 1 } else { raw[3] & !1u32 };
    [raw[0], raw[1], raw[2], w3]
}

/// The producer's position after writing one TRB at `index`: the next slot, or back to
/// the start with the cycle flipped once the slot before the Link TRB is used.
pub open spec fn producer_step(index: nat, cycle: bool, len: nat) -> (nat, bool) {
    if index + 1 == len - 1 { (0, !cycle) } else { (index + 1, cycle) }
}

/// A producer ring (command or transfer ring): `len` slots of which the last holds the
/// Link TRB back to the start.
pub struct CommandRing {
    pub ring_phys: u64,
    pub index: usize,
    pub cycle: bool,
    pub len: usize,
}

/// A transfer ring works as the command ring does.
pub struct TransferRing {
    pub ring_phys: u64,
    pub index: usize,
    pub cycle: bool,
    pub len: usize,
}

/// The TRB writes that one push makes: the TRB itself and, when the ring wraps, the Link
/// TRB in the last slot; both carry the cycle bit of the lap they belong to.
pub open spec fn push_writes(ring_phys: u64, index: nat, cycle: bool, len: nat, raw: [u32; 4]) -> Seq<(usize, [u32; 4])> {
    let first = seq![(index as usize, with_cycle(raw, cycle))];
    if index + 1 == len - 1 {
        let link: [u32; 4] = [(ring_phys % 0x1_0000_0000) as u32, (ring_phys / 0x1_0000_0000) as u32, 0, 6146u32];
        first.push(((len - 1) as usize, with_cycle(link, cycle)))
    } else {
        first
    }
}

/// A producer ring's position is usable: a slot before the Link TRB, and an aligned base.
pub open spec fn producer_ok(ring_phys: u64, index: nat, len: nat) -> bool {
    2 <= len && index < len - 1 && ring_phys % 16 == 0
}

fn producer_push(ring_phys: u64, index: usize, cycle: bool, len: usize, raw: [u32; 4]) -> (res: (usize, bool, Vec<(usize, [u32; 4])>))
    requires
        producer_ok(ring_phys, index as nat, len as nat),
    ensures
        (res.0 as nat, res.1) == producer_step(index as nat, cycle, len as nat),
        res.2@ == push_writes(ring_phys, index as nat, cycle, len as nat, raw),
{
    let mut writes: Vec<(usize, [u32; 4])> = Vec::new();
    writes.push((index, set_cycle(raw, cycle)));
    let next = index + 1;
    if next == len - 1 {
        let link = link_trb(ring_phys);
        let l = set_cycle(link, cycle);
        writes.push((next, l));
        proof {
            let expect: [u32; 4] = [(ring_phys % 0x1_0000_0000) as u32, (ring_phys / 0x1_0000_0000) as u32, 0, 6146u32];
            assert(link == expect);
            assert(writes@ =~= push_writes(ring_phys, index as nat, cycle, len as nat, raw));
        }
        (0, !cycle, writes)
    } else {
        assert(writes@ =~= push_writes(ring_phys, index as nat, cycle, len as nat, raw));
        (next, cycle, writes)
    }
}

impl CommandRing {
    /// A ring of `len` slots at `ring_phys`, starting at slot 0 with cycle 1.
    pub fn new(ring_phys: u64, len: usize) -> (res: Self)
        ensures
            res.ring_phys == ring_phys && res.index == 0 && res.cycle && res.len == len,
    {
        CommandRing { ring_phys, index: 0, cycle: true, len }
    }

    /// Enqueues a TRB: returns the slot writes to make, in order.
    pub fn push_raw(&mut self, raw: [u32; 4]) -> (res: Vec<(usize, [u32; 4])>)
        requires
            producer_ok(old(self).ring_phys, old(self).index as nat, old(self).len as nat),
        ensures
            res@ == push_writes(old(self).ring_phys, old(self).index as nat, old(self).cycle, old(self).len as nat, raw),
            (final(self).index as nat, final(self).cycle) == producer_step(old(self).index as nat, old(self).cycle, old(self).len as nat),
            final(self).ring_phys == old(self).ring_phys && final(self).len == old(self).len,
            producer_ok(final(self).ring_phys, final(self).index as nat, final(self).len as nat),
    {
        let (i, c, w) = producer_push(self.ring_phys, self.index, self.cycle, self.len, raw);
        self.index = i;
        self.cycle = c;
        w
    }
}

impl TransferRing {
    /// A ring of `len` slots at `ring_phys`, starting at slot 0 with cycle 1.
    pub fn new(ring_phys: u64, len: usize) -> (res: Self)
        ensures
            res.ring_phys == ring_phys && res.index == 0 && res.cycle && res.len == len,
    {
        TransferRing { ring_phys, index: 0, cycle: true, len }
    }

    /// Enqueues a TRB: returns the slot writes to make, in order.
    pub fn push_raw(&mut self, raw: [u32; 4]) -> (res: Vec<(usize, [u32; 4])>)
        requires
            producer_ok(old(self).ring_phys, old(self).index as nat, old(self).len as nat),
        ensures
            res@ == push_writes(old(self).ring_phys, old(self).index as nat, old(self).cycle, old(self).len as nat, raw),
            (final(self).index as nat, final(self).cycle) == producer_step(old(self).index as nat, old(self).cycle, old(self).len as nat),
            final(self).ring_phys == old(self).ring_phys && final(self).len == old(self).len,
            producer_ok(final(self).ring_phys, final(self).index as nat, final(self).len as nat),
    {
        let (i, c, w) = producer_push(self.ring_phys, self.index, self.cycle, self.len, raw);
        self.index = i;
        self.cycle = c;
        w
    }
}

/// The event ring, consumed by the driver.
pub struct EventRing {
    pub ring_phys: u64,
    pub index: usize,
    pub cycle: bool,
    pub len: usize,
}

impl EventRing {
    /// A ring of `len` slots at `ring_phys`, starting at slot 0 with cycle 1.
    pub fn new(ring_phys: u64, len: usize) -> (res: Self)
        ensures
            res.ring_phys == ring_phys && res.index == 0 && res.cycle && res.len == len,
    {
        EventRing { ring_phys, index: 0, cycle: true, len }
    }

    /// Offers the TRB found in the current slot: it is the next event when its cycle bit
    /// matches the consumer cycle, and the ring then moves on (flipping the cycle at the
    /// end of the ring); otherwise there is no new event.
    pub fn poll(&mut self, trb: [u32; 4]) -> (res: Option<[u32; 4]>)
        requires
            old(self).index < old(self).len,
        ensures
            ((trb[3] & 1) != 0) == old(self).cycle ==> {
                &&& res == Some(trb)
                &&& old(self).index + 1 == old(self).len ==> final(self).index == 0 && final(self).cycle == !old(self).cycle
                &&& old(self).index + 1 < old(self).len ==> final(self).index == old(self).index + 1
                    && final(self).cycle == old(self).cycle
            },
            ((trb[3] & 1) != 0) != old(self).cycle ==> res is None && final(self).index == old(self).index
                && final(self).cycle == old(self).cycle,
            final(self).index < final(self).len,
            final(self).len == old(self).len && final(self).ring_phys == old(self).ring_phys,
    {
        let cycle_bit = (trb[3] & 1) != 0;
        if cycle_bit == self.cycle {
            self.index = self.index + 1;
            if self.index == self.len {
                self.cycle = !self.cycle;
                self.index = 0;
            }
            Some(trb)
        } else {
            None
        }
    }
}

/// The producer cycle flips once per lap: after `len - 1` pushes from the start of a lap
/// the ring is back at slot 0 with the other cycle, and every push before that kept it.
pub proof fn law_producer_lap(len: nat, cycle: bool, k: nat)
    requires
        2 <= len,
        k < len - 1,
    ensures
        producer_step(k, cycle, len) == (if k + 1 == len - 1 { (0nat, !cycle) } else { (k + 1, cycle) }),
        producer_iter(0, cycle, len, k) == (k, cycle),
        producer_iter(0, cycle, len, (len - 1) as nat) == (0nat, !cycle),
    decreases k,
{
    if k > 0 {
        law_producer_lap(len, cycle, (k - 1) as nat);
    }
    lemma_iter_before_wrap(len, cycle, (len - 2) as nat);
}

/// The position after `k` pushes.
pub open spec fn producer_iter(index: nat, cycle: bool, len: nat, k: nat) -> (nat, bool)
    decreases k,
{
    if k == 0 {
        (index, cycle)
    } else {
        let p = producer_iter(index, cycle, len, (k - 1) as nat);
        producer_step(p.0, p.1, len)
    }
}

proof fn lemma_iter_before_wrap(len: nat, cycle: bool, k: nat)
    requires
        2 <= len,
        k <= len - 2,
    ensures
        producer_iter(0, cycle, len, k) == (k, cycle),
        producer_iter(0, cycle, len, k + 1) == (if k + 1 == len - 1 { (0nat, !cycle) } else { (k + 1, cycle) }),
    decreases k,
{
    if k > 0 {
        lemma_iter_before_wrap(len, cycle, (k - 1) as nat);
    }
}

/// An Event Ring Segment Table entry.
#[derive(Debug, Clone, Copy, PartialEq, Eq, Structural)]
pub struct EventRingSegmentTableEntry {
    pub base_addr: u64,
    pub size: u16,
    pub rsvd1: u16,
    pub rsvd2: u32,
}

/// What the driver keeps of an addressed device.
pub struct UsbDeviceInfo {
    pub slot: u8,
    pub port: u8,
    pub speed: u8,
    pub ctx_phys: u64,
    pub ep0_ring: TransferRing,
    pub extra_rings: Vec<Option<TransferRing>>,
}

/// Timer ticks to wait for `ms` milliseconds at 55 ms a tick (the PIT at 18.2 Hz), plus one.
pub open spec fn delay_ticks(ms: u64) -> nat {
    ms as nat / 55 + 1
}

/// Whether a delay of `ms` milliseconds started at tick `start` is over at tick `now`
/// (tick counts wrap around).
pub fn delay_ms(start: u64, now: u64, ms: u64) -> (res: bool)
    ensures
        res == ((if now >= start { now - start } else { now + 0x1_0000_0000_0000_0000 - start }) >= delay_ticks(ms)),
{
    let waited = now.wrapping_sub(start);
    waited >= ms / 55 + 1
}

/// The number of MSI-X table entries: the table size field (bits 16..=26 of the dword
/// at the capability) plus one.
pub fn msix_table_size(msg_ctrl: u32) -> (res: u32)
    ensures
        res == (msg_ctrl / 0x1_0000) % 0x800 + 1,
{
    assert((msg_ctrl >> 16u32) & 0x7FFu32 == (msg_ctrl / 0x1_0000) % 0x800) by (bit_vector);
    ((msg_ctrl >> 16u32) & 0x7FF) + 1
}

/// The register write that turns MSI-X on: at the capability's offset, the dword read
/// there with the enable bit (31) set and the function mask (bit 30) cleared.
pub struct MsixWrite {
    pub offset: u8,
    pub value: u32,
    pub table_size: u32,
}

/// Given the MSI-X capability's offset and the dword read there (`None` when the device
/// has no MSI-X capability, ID 0x11), the write to make; nothing without the capability.
/// Every bit but the two named ones keeps its value.
pub fn configure_msix(capability: Option<(u8, u32)>) -> (res: Option<MsixWrite>)
    ensures
        capability is None <==> res is None,
        capability matches Some((off, ctrl)) ==> res matches Some(w) && {
            &&& w.offset == off
            &&& w.value == (ctrl | 0x8000_0000u32) & !0x4000_0000u32
            &&& w.value / 0x4000_0000 == 2
            &&& w.value % 0x4000_0000 == ctrl % 0x4000_0000
            &&& w.table_size == (ctrl / 0x1_0000) % 0x800 + 1
        },
{
    match capability {
        None => None,
        Some((offset, msg_ctrl)) => {
            let value = (msg_ctrl | 0x8000_0000u32) & !0x4000_0000u32;
            assert(((msg_ctrl | 0x8000_0000u32) & !0x4000_0000u32) / 0x4000_0000 == 2
                && ((msg_ctrl | 0x8000_0000u32) & !0x4000_0000u32) % 0x4000_0000 == msg_ctrl % 0x4000_0000)
                by (bit_vector);
            Some(MsixWrite { offset, value, table_size: msix_table_size(msg_ctrl) })
        },
    }
}

} // verus!
