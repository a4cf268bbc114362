//! NVMe queues and commands: submission-queue entries, completion handling with the
//! phase bit, doorbell offsets, the admin and I/O commands the driver issues, and how
//! a block request is cut into commands.
//!
//! The queues' memory and the controller's registers are the caller's: each
//! operation here says which slot to write, which entry was read, and which doorbell
//! to ring with which value.
use vstd::prelude::*;
use crate::bytes::{get_le16, get_le32, le16, le32};

verus! {

pub const NVME_CLASS: u8 = 0x01;
pub const NVME_SUBCLASS: u8 = 0x08;
pub const CAP: usize = 0x0000;
pub const CC: usize = 0x0014;
pub const CSTS: usize = 0x001C;
pub const AQA: usize = 0x0024;
pub const ASQ: usize = 0x0028;
pub const ACQ: usize = 0x0030;
pub const SQ0_TDBL: usize = 0x1000;
pub const CQ0_HDBL: usize = 0x1004;
pub const QUEUE_ENTRIES: u16 = 64;
pub const POLL_LIMIT: u32 = 100_000_000;
pub const READY_WAIT_LIMIT: u32 = 10_000_000;

/// A submission queue entry (64 bytes on the wire).
#[derive(Debug, Clone, Copy, PartialEq, Eq, Structural)]
pub struct SqEntry {
    pub cdw0: u32,
    pub nsid: u32,
    pub rsvd2: u64,
    pub mptr: u64,
    pub prp1: u64,
    pub prp2: u64,
    pub cdw10: u32,
    pub cdw11: u32,
    pub cdw12: u32,
    pub cdw13: u32,
    pub cdw14: u32,
    pub cdw15: u32,
}

pub open spec fn zero_sq_entry() -> SqEntry {
    SqEntry {
        cdw0: 0, nsid: 0, rsvd2: 0, mptr: 0, prp1: 0, prp2: 0,
        cdw10: 0, cdw11: 0, cdw12: 0, cdw13: 0, cdw14: 0, cdw15: 0,
    }
}

impl Default for SqEntry {
    fn default() -> (res: Self)
        ensures
            res == zero_sq_entry(),
    {
        SqEntry {
            cdw0: 0, nsid: 0, rsvd2: 0, mptr: 0, prp1: 0, prp2: 0,
            cdw10: 0, cdw11: 0, cdw12: 0, cdw13: 0, cdw14: 0, cdw15: 0,
        }
    }
}

/// A completion queue entry (16 bytes on the wire); bit 0 of `status` is the phase tag.
#[derive(Debug, Clone, Copy, PartialEq, Eq, Structural)]
pub struct CqEntry {
    pub cdw0: u32,
    pub rsvd1: u32,
    pub sq_head: u16,
    pub sq_id: u16,
    pub cid: u16,
    pub status: u16,
}

impl CqEntry {
    /// Reads a completion entry from its 16 bytes.
    pub fn from_bytes(b: &[u8]) -> (res: Self)
        requires
            b@.len() >= 16,
        ensures
            res.cdw0 as nat == le32(b@, 0),
            res.rsvd1 as nat == le32(b@, 4),
            res.sq_head as nat == le16(b@, 8),
            res.sq_id as nat == le16(b@, 10),
            res.cid as nat == le16(b@, 12),
            res.status as nat == le16(b@, 14),
    {
        CqEntry {
            cdw0: get_le32(b, 0),
            rsvd1: get_le32(b, 4),
            sq_head: get_le16(b, 8),
            sq_id: get_le16(b, 10),
            cid: get_le16(b, 12),
            status: get_le16(b, 14),
        }
    }
}

/// `cdw0` with the command identifier in its upper half.
pub open spec fn with_cid(cdw0: u32, cid: u16) -> u32 {
    (cdw0 & !0xFFFF_0000u32) | ((cid as u32) << 16u32)
}

/// Byte offset, from the controller's registers, of a queue's doorbell: the submission
/// tail doorbell (`completion == false`) or the completion head doorbell, doorbells
/// being `4 << db_stride` bytes apart.
pub open spec fn doorbell_offset(qid: u16, db_stride: u32, completion: bool) -> int {
    0x1000 + (qid * 2 + if completion { 1int } else { 0int }) * ((4u64 << db_stride) as int)
}

fn doorbell(qid: u16, db_stride: u32, completion: bool) -> (res: u64)
    requires
        db_stride <= 15,
    ensures
        res == doorbell_offset(qid, db_stride, completion),
{
    let unit: u64 = 4u64 << db_stride;
    assert(unit <= 0x20000) by (bit_vector)
        requires
            unit == 4u64 << db_stride,
            db_stride <= 15,
    ;
    let idx: u64 = qid as u64 * 2 + if completion { 1 } else { 0 };
    assert(idx * unit <= 0x20000 * 0x20000) by (nonlinear_arith)
        requires
            idx <= 0x20000,
            unit <= 0x20000,
    ;
    0x1000 + idx * unit
}

/// A doorbell write: the register's offset and the value to write.
#[derive(Debug, Clone, Copy, PartialEq, Eq, Structural)]
pub struct Doorbell {
    pub offset: u64,
    pub value: u32,
}

/// What one submission asks of the caller: write `entry` into slot `slot` of the
/// submission queue, then ring `doorbell`.
#[derive(Debug, Clone, Copy, PartialEq, Eq, Structural)]
pub struct Submission {
    pub cid: u16,
    pub slot: u16,
    pub entry: SqEntry,
    pub doorbell: Doorbell,
}

/// The result of examining the completion entry at the queue's head.
#[derive(Debug, Clone, Copy, PartialEq, Eq, Structural)]
pub enum PollStep {
    /// The awaited command completed successfully.
    Done(CqEntry),
    /// The awaited command completed with this status code.
    Failed(u16),
    /// Keep waiting; the spin count so far.
    Retry(u32),
    /// The wait gave up.
    TimedOut,
}

#[derive(Debug, Clone, Copy, PartialEq, Eq, Structural)]
pub struct PollOutcome {
    /// The head doorbell to ring, where an entry was consumed.
    pub doorbell: Option<Doorbell>,
    pub step: PollStep,
}

/// A queue pair: a submission queue and its completion queue of `size` entries each.
#[derive(Debug, Clone, Copy, PartialEq, Eq, Structural)]
pub struct NvmeQueue {
    pub sq_phys: u64,
    pub cq_phys: u64,
    pub sq_tail: u16,
    pub cq_head: u16,
    pub phase: u16,
    pub size: u16,
    pub qid: u16,
    pub db_stride: u32,
}

/// The slot after `i` in a ring of `size` slots.
pub open spec fn next_slot(i: u16, size: u16) -> u16 {
    if i + 1 >= size { 0 } else { (i + 1) as u16 }
}

/// The completion entry carries the phase the consumer expects.
pub open spec fn phase_matches(e: CqEntry, phase: u16) -> bool {
    (e.status & 1u16 != 0) == (phase != 0)
}

/// Waiting goes on after `spins` spins, or gives up.
pub open spec fn keep_waiting(spins: u32) -> PollStep {
    if spins as int + 1 > POLL_LIMIT as int { PollStep::TimedOut } else { PollStep::Retry((spins + 1) as u32) }
}

impl NvmeQueue {
    pub open spec fn wf(self) -> bool {
        &&& 0 < self.size
        &&& self.sq_tail < self.size
        &&& self.cq_head < self.size
        &&& self.phase <= 1
        &&& self.db_stride <= 15
    }

    /// A queue pair on freshly zeroed queue memory: both positions at slot 0, expecting phase 1.
    pub fn new(qid: u16, size: u16, db_stride: u32, sq_phys: u64, cq_phys: u64) -> (res: Self)
        requires
            0 < size,
            db_stride <= 15,
        ensures
            res.wf(),
            res == (NvmeQueue { sq_phys, cq_phys, sq_tail: 0, cq_head: 0, phase: 1, size, qid, db_stride }),
    {
        NvmeQueue { sq_phys, cq_phys, sq_tail: 0, cq_head: 0, phase: 1, size, qid, db_stride }
    }

    /// Queues a command: it takes the tail slot's index as its identifier, and the tail
    /// moves on (wrapping at `size`); the tail doorbell is rung with the new tail.
    pub fn submit(&mut self, entry: SqEntry) -> (res: Submission)
        requires
            old(self).wf(),
        ensures
            final(self).wf(),
            *final(self) == (NvmeQueue { sq_tail: next_slot(old(self).sq_tail, old(self).size), ..*old(self) }),
            res.cid == old(self).sq_tail,
            res.slot == old(self).sq_tail,
            res.entry == (SqEntry { cdw0: with_cid(entry.cdw0, old(self).sq_tail), ..entry }),
            res.doorbell.offset == doorbell_offset(old(self).qid, old(self).db_stride, false),
            res.doorbell.value == final(self).sq_tail,
    {
        let cid = self.sq_tail;
        let mut e = entry;
        e.cdw0 = (e.cdw0 & !0xFFFF_0000u32) | ((cid as u32) << 16u32);
        self.sq_tail = if self.sq_tail + 1 >= self.size { 0 } else { self.sq_tail + 1 };
        let offset = doorbell(self.qid, self.db_stride, false);
        Submission { cid, slot: cid, entry: e, doorbell: Doorbell { offset, value: self.sq_tail as u32 } }
    }

    /// Examines the completion entry read at the head while waiting for command `cid`,
    /// after `spins` spins. An entry whose phase tag matches is consumed: the head moves
    /// on, the expected phase flips when it wraps, and the head doorbell is rung. The wait
    /// ends when the consumed entry is `cid`'s, with its status code (bits 1..15).
    pub fn poll_step(&mut self, entry: CqEntry, cid: u16, spins: u32) -> (res: PollOutcome)
        requires
            old(self).wf(),
        ensures
            final(self).wf(),
            if phase_matches(entry, old(self).phase) {
                let wrap = old(self).cq_head + 1 >= old(self).size;
                &&& *final(self) == (NvmeQueue {
                    cq_head: next_slot(old(self).cq_head, old(self).size),
                    phase: if wrap { (1 - old(self).phase) as u16 } else { old(self).phase },
                    ..*old(self)
                })
                &&& res.doorbell == Some(Doorbell {
                    offset: doorbell_offset(old(self).qid, old(self).db_stride, true) as u64,
                    value: final(self).cq_head as u32,
                })
                &&& res.step == if entry.cid == cid {
                    if entry.status >> 1u16 == 0 { PollStep::Done(entry) } else { PollStep::Failed(entry.status >> 1u16) }
                } else {
                    keep_waiting(spins)
                }
            } else {
                &&& *final(self) == *old(self)
                &&& res.doorbell is None
                &&& res.step == keep_waiting(spins)
            },
    {
        let waiting = if spins >= POLL_LIMIT { PollStep::TimedOut } else { PollStep::Retry(spins + 1) };
        let p = (entry.status & 1) != 0;
        if p == (self.phase != 0) {
            if self.cq_head + 1 >= self.size {
                self.cq_head = 0;
                self.phase = 1 - self.phase;
            } else {
                self.cq_head = self.cq_head + 1;
            }
            let offset = doorbell(self.qid, self.db_stride, true);
            let bell = Doorbell { offset, value: self.cq_head as u32 };
            let step = if entry.cid == cid {
                let st = entry.status >> 1;
                if st == 0 { PollStep::Done(entry) } else { PollStep::Failed(st) }
            } else {
                waiting
            };
            PollOutcome { doorbell: Some(bell), step }
        } else {
            PollOutcome { doorbell: None, step: waiting }
        }
    }
}

/// The consumer's (head, phase) after consuming `k` entries from (`head`, `phase`).
pub open spec fn consume_iter(head: u16, phase: u16, size: u16, k: nat) -> (u16, u16)
    decreases k,
{
    if k == 0 {
        (head, phase)
    } else {
        let p = consume_iter(head, phase, size, (k - 1) as nat);
        (next_slot(p.0, size), if p.0 + 1 >= size { (1 - p.1) as u16 } else { p.1 })
    }
}

proof fn lemma_consume_before_wrap(phase: u16, size: u16, k: nat)
    requires
        0 < size,
        k < size,
    ensures
        consume_iter(0, phase, size, k) == (k as u16, phase),
    decreases k,
{
    if k > 0 {
        lemma_consume_before_wrap(phase, size, (k - 1) as nat);
    }
}

/// Consuming a full lap of `size` completions from slot 0 brings the head back to slot 0
/// and flips the expected phase exactly once: the tag the controller writes on its next
/// lap is the one the consumer then waits for.
pub proof fn law_consumer_lap(phase: u16, size: u16)
    requires
        0 < size,
        phase <= 1,
    ensures
        forall|k: nat| k < size ==> consume_iter(0, phase, size, k) == (k as u16, phase),
        consume_iter(0, phase, size, size as nat) == (0u16, (1 - phase) as u16),
{
    assert forall|k: nat| k < size implies consume_iter(0, phase, size, k) == (k as u16, phase) by {
        lemma_consume_before_wrap(phase, size, k);
    }
    lemma_consume_before_wrap(phase, size, (size - 1) as nat);
}

/// Admin command: Identify Controller into the page at `prp1`.
pub fn identify_controller(prp1: u64) -> (res: SqEntry)
    ensures
        res == (SqEntry { cdw0: 0x06, prp1, cdw10: 1, ..zero_sq_entry() }),
{
    let mut c = SqEntry::default();
    c.cdw0 = 0x06;
    c.prp1 = prp1;
    c.cdw10 = 1;
    c
}

/// Admin command: Identify Namespace `nsid` into the page at `prp1`.
pub fn identify_namespace(prp1: u64, nsid: u32) -> (res: SqEntry)
    ensures
        res == (SqEntry { cdw0: 0x06, prp1, nsid, cdw10: 0, ..zero_sq_entry() }),
{
    let mut c = SqEntry::default();
    c.cdw0 = 0x06;
    c.prp1 = prp1;
    c.nsid = nsid;
    c.cdw10 = 0;
    c
}

/// Admin command: create I/O completion queue 1 of 64 entries at `prp1`, physically
/// contiguous, interrupts enabled.
pub fn create_io_cq(prp1: u64) -> (res: SqEntry)
    ensures
        res == (SqEntry { cdw0: 0x05, prp1, cdw10: (63u32 << 16u32) | 1, cdw11: 1, ..zero_sq_entry() }),
{
    let mut c = SqEntry::default();
    c.cdw0 = 0x05;
    c.prp1 = prp1;
    c.cdw10 = (63u32 << 16u32) | 1;
    c.cdw11 = 1;
    c
}

/// Admin command: create I/O submission queue 1 of 64 entries at `prp1`, bound to
/// completion queue 1, physically contiguous.
pub fn create_io_sq(prp1: u64) -> (res: SqEntry)
    ensures
        res == (SqEntry { cdw0: 0x01, prp1, cdw10: (63u32 << 16u32) | 1, cdw11: (1u32 << 16u32) | 1, ..zero_sq_entry() }),
{
    let mut c = SqEntry::default();
    c.cdw0 = 0x01;
    c.prp1 = prp1;
    c.cdw10 = (63u32 << 16u32) | 1;
    c.cdw11 = (1u32 << 16u32) | 1;
    c
}

/// I/O command: read (or write) `count` sectors at `lba` of namespace `nsid`
/// to (from) the buffer at `buf_phys`; the count is sent zero-based.
pub fn io_command(nsid: u32, lba: u64, buf_phys: u64, count: u16, is_write: bool) -> (res: SqEntry)
    requires
        count >= 1,
    ensures
        res == (SqEntry {
            cdw0: if is_write { 0x01 } else { 0x02 },
            nsid,
            prp1: buf_phys,
            cdw10: (lba % 0x1_0000_0000) as u32,
            cdw11: (lba / 0x1_0000_0000) as u32,
            cdw12: (count - 1) as u32,
            ..zero_sq_entry()
        }),
{
    let mut c = SqEntry::default();
    c.cdw0 = if is_write { 0x01 } else { 0x02 };
    c.nsid = nsid;
    c.prp1 = buf_phys;
    c.cdw10 = (lba % 0x1_0000_0000) as u32;
    c.cdw11 = (lba / 0x1_0000_0000) as u32;
    c.cdw12 = (count - 1) as u32;
    c
}

/// The physical base of the controller's registers from BAR0 (and, for a 64-bit
/// BAR, BAR1): the type bits 1..2 of BAR0 equal to 0b10 mark a 64-bit BAR.
pub open spec fn spec_bar_base(bar0: u32, bar1: u32) -> u64 {
    if bar0 & 0x07 == 0x04 {
        ((bar1 as u64) << 32u64) | (bar0 as u64 & !0xFu64)
    } else {
        bar0 as u64 & !0xFu64
    }
}

pub fn bar_base(bar0: u32, bar1: u32) -> (res: u64)
    ensures
        res == spec_bar_base(bar0, bar1),
{
    if bar0 & 0x07 == 0x04 {
        ((bar1 as u64) << 32u64) | (bar0 as u64 & !0xFu64)
    } else {
        bar0 as u64 & !0xFu64
    }
}

/// The doorbell stride (CAP bits 32..35) and the minimum memory page size (CAP bits 48..51).
pub fn cap_fields(cap: u64) -> (res: (u32, u32))
    ensures
        res.0 == (cap >> 32u64) & 0xF,
        res.1 == (cap >> 48u64) & 0xF,
        res.0 <= 15 && res.1 <= 15,
{
    let stride = (cap >> 32u64) & 0xF;
    let mps = (cap >> 48u64) & 0xF;
    assert(stride <= 15 && mps <= 15) by (bit_vector)
        requires
            stride == (cap >> 32u64) & 0xF,
            mps == (cap >> 48u64) & 0xF,
    ;
    (stride as u32, mps as u32)
}

/// CC with the enable bit cleared.
pub fn disabled_config(cc: u32) -> (res: u32)
    ensures
        res == cc & !1u32,
{
    cc & !1u32
}

/// CC for the enabled controller: I/O entry sizes 64 (SQ) and 16 (CQ) bytes, the
/// minimum page size, and the enable bit; the reserved bits of `cc` are kept.
pub fn enabled_config(cc: u32, mpsmin: u32) -> (res: u32)
    requires
        mpsmin <= 15,
    ensures
        res == (cc & 0xFF00000Fu32) | (6u32 << 16u32) | (4u32 << 20u32) | (mpsmin << 7u32) | 1,
{
    (cc & 0xFF00000Fu32) | (6u32 << 16u32) | (4u32 << 20u32) | (mpsmin << 7u32) | 1
}

/// AQA for admin queues of 64 entries each.
pub fn admin_queue_attributes() -> (res: u32)
    ensures
        res == (63u32 << 16u32) | 63,
{
    (63u32 << 16u32) | 63
}

/// One command of a block request: `sectors` sectors at `lba`, to or from the
/// request buffer at `buf_offset`.
#[derive(Debug, Clone, Copy, PartialEq, Eq, Structural)]
pub struct IoChunk {
    pub lba: u64,
    pub sectors: u16,
    pub buf_offset: usize,
}

/// The commands of a request of `count` sectors at `lba`: one command where the request
/// fits in one page, else one command per sector.
pub open spec fn spec_io_chunks(lba: u64, count: u16) -> Seq<IoChunk> {
    if count as int * 512 <= 4096 {
        seq![IoChunk { lba, sectors: count, buf_offset: 0 }]
    } else {
        Seq::new(count as nat, |i: int| IoChunk { lba: (lba + i) as u64, sectors: 1, buf_offset: (i * 512) as usize })
    }
}

/// Cuts a block request into NVMe commands; refuses a buffer shorter than the request.
pub fn split_io(lba: u64, count: u16, buffer_len: usize) -> (res: Result<Vec<IoChunk>, &'static str>)
    requires
        count >= 1,
        lba + count <= u64::MAX,
    ensures
        match res {
            Ok(v) => buffer_len >= count * 512 && v@ == spec_io_chunks(lba, count),
            Err(e) => buffer_len < count * 512 && e@ == "Buffer too small"@,
        },
{
    let expected_len: u64 = count as u64 * 512;
    if (buffer_len as u64) < expected_len {
        return Err("Buffer too small");
    }
    let mut v: Vec<IoChunk> = Vec::new();
    if expected_len <= 4096 {
        v.push(IoChunk { lba, sectors: count, buf_offset: 0 });
        assert(v@ =~= spec_io_chunks(lba, count));
    } else {
        let mut i: u16 = 0;
        while i < count
            invariant
                i <= count,
                lba + count <= u64::MAX,
                count as int * 512 <= buffer_len,
                v@.len() == i,
                forall|k: int| 0 <= k < i ==> #[trigger] v@[k] == (IoChunk { lba: (lba + k) as u64, sectors: 1, buf_offset: (k * 512) as usize }),
            decreases count - i,
        {
            v.push(IoChunk { lba: lba + i as u64, sectors: 1, buf_offset: i as usize * 512 });
            i = i + 1;
        }
        assert(v@ =~= spec_io_chunks(lba, count));
    }
    Ok(v)
}

/// The driver's state: its queues and the namespace it serves.
#[derive(Debug, Clone, Copy, PartialEq, Eq, Structural)]
pub struct NvmeDriver {
    pub db_stride: u32,
    pub admin_queue: Option<NvmeQueue>,
    pub io_queue: Option<NvmeQueue>,
    pub ns_size_sectors: u64,
    pub ns_id: u32,
    pub max_prp_pages: u32,
}

impl NvmeDriver {
    pub open spec fn wf(self) -> bool {
        &&& self.db_stride <= 15
        &&& self.admin_queue matches Some(q) ==> q.wf()
        &&& self.io_queue matches Some(q) ==> q.wf()
    }

    /// A driver for the controller whose CAP register reads `cap`, before its queues exist.
    pub fn new(cap: u64) -> (res: Self)
        ensures
            res.wf(),
            res.db_stride == (cap >> 32u64) & 0xF,
            res.admin_queue is None && res.io_queue is None,
            res.ns_size_sectors == 0 && res.ns_id == 1 && res.max_prp_pages == 1,
    {
        let (db_stride, _mps) = cap_fields(cap);
        NvmeDriver { db_stride, admin_queue: None, io_queue: None, ns_size_sectors: 0, ns_id: 1, max_prp_pages: 1 }
    }

    /// Queues one read or write on the I/O queue (the caller then waits for it with
    /// `NvmeQueue::poll_step`); refused while the I/O queue does not exist.
    pub fn submit_io(&mut self, lba: u64, buf_phys: u64, count: u16, is_write: bool) -> (res: Result<Submission, &'static str>)
        requires
            old(self).wf(),
            count >= 1,
        ensures
            final(self).wf(),
            match res {
                Ok(s) => old(self).io_queue matches Some(q) && {
                    &&& final(self).io_queue == Some(NvmeQueue { sq_tail: next_slot(q.sq_tail, q.size), ..q })
                    &&& s.cid == q.sq_tail
                    &&& s.entry == (SqEntry { cdw0: with_cid(if is_write { 0x01u32 } else { 0x02u32 }, q.sq_tail), nsid: old(self).ns_id, prp1: buf_phys, cdw10: (lba % 0x1_0000_0000) as u32, cdw11: (lba / 0x1_0000_0000) as u32, cdw12: (count - 1) as u32, ..zero_sq_entry() })
                    &&& s.doorbell.offset == doorbell_offset(q.qid, q.db_stride, false)
                    &&& s.doorbell.value == next_slot(q.sq_tail, q.size)
                    &&& *final(self) == (NvmeDriver { io_queue: final(self).io_queue, ..*old(self) })
                },
                Err(e) => old(self).io_queue is None && *final(self) == *old(self) && e@ == "IO Queue not initialized"@,
            },
    {
        match self.io_queue {
            None => Err("IO Queue not initialized"),
            Some(q) => {
                let mut q = q;
                let cmd = io_command(self.ns_id, lba, buf_phys, count, is_write);
                let s = q.submit(cmd);
                self.io_queue = Some(q);
                Ok(s)
            },
        }
    }
}

} // verus!
