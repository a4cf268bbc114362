//! Enumeration of a device on a root-hub port of the xHCI controller: the input contexts
//! of Address Device and Configure Endpoint, the commands that hand them over, what a
//! completion asks for next, and the first things read from a mass-storage device.
use vstd::prelude::*;
use crate::audio_player::wav::be32;
use crate::bytes::{get_le32, get_le64, le32, le64};
use crate::usb::{CommandBlockWrapper, CBW_SIGNATURE, CSW_SIGNATURE};

verus! {

/// Max packet size of the default control endpoint for a port speed: 8 at full and low
/// speed, 512 at SuperSpeed, 64 otherwise.
pub open spec fn spec_ep0_max_packet(speed: u8) -> u32 {
    if speed == 3 { 64 } else if speed == 1 || speed == 2 { 8 } else if speed == 4 { 512 } else { 64 }
}

pub fn ep0_max_packet(speed: u8) -> (res: u32)
    ensures
        res == spec_ep0_max_packet(speed),
{
    if speed == 3 {
        64
    } else if speed == 1 || speed == 2 {
        8
    } else if speed == 4 {
        512
    } else {
        64
    }
}

/// The Link TRB written in the last slot of a transfer ring: back to the ring's start,
/// toggle cycle, cycle bit set.
pub fn ring_link_words(ring_phys: u64) -> (res: [u32; 4])
    ensures
        res@ == seq![(ring_phys & 0xFFFF_FFF0) as u32, (ring_phys >> 32u64) as u32, 0u32, (6u32 << 10u32) | 2 | 1],
{
    let w = [(ring_phys & 0xFFFF_FFF0) as u32, (ring_phys >> 32u64) as u32, 0u32, (6u32 << 10u32) | 2 | 1];
    assert(w@ =~= seq![(ring_phys & 0xFFFF_FFF0) as u32, (ring_phys >> 32u64) as u32, 0u32, (6u32 << 10u32) | 2 | 1]);
    w
}

/// The dword writes (index in the input context, value) of Address Device: input control
/// adds the slot and EP0; the slot context gives speed, one context entry and the root
/// port; EP0 is a control endpoint with three retries, its max packet size, its ring with
/// dequeue cycle 1 and an average TRB length of 8.
pub open spec fn spec_address_context(port_idx: u8, speed: u8, ep0_ring_phys: u64, c: nat) -> Seq<(usize, u32)> {
    seq![
        (0usize, 0u32),
        (1usize, 1u32),
        (c as usize, ((speed as u32) << 20u32) | (1u32 << 27u32)),
        ((c + 1) as usize, ((port_idx as u32 + 1) as u32) << 16u32),
        ((c + 2) as usize, 0u32),
        ((c + 3) as usize, 0u32),
        ((2 * c) as usize, 0u32),
        ((2 * c + 1) as usize, (3u32 << 1u32) | (4u32 << 3u32) | (spec_ep0_max_packet(speed) << 16u32)),
        ((2 * c + 2) as usize, ((ep0_ring_phys as u32) & 0xFFFF_FFF0) | 1),
        ((2 * c + 3) as usize, (ep0_ring_phys >> 32u64) as u32),
        ((2 * c + 4) as usize, 8u32),
    ]
}

pub fn address_input_context(port_idx: u8, speed: u8, ep0_ring_phys: u64, ctx_dwords: usize) -> (res: Vec<(usize, u32)>)
    requires
        ctx_dwords <= 0x100_0000,
    ensures
        res@ == spec_address_context(port_idx, speed, ep0_ring_phys, ctx_dwords as nat),
{
    let c = ctx_dwords;
    let mp = ep0_max_packet(speed);
    let mut v: Vec<(usize, u32)> = Vec::new();
    v.push((0, 0));
    v.push((1, 1));
    v.push((c, ((speed as u32) << 20u32) | (1u32 << 27u32)));
    v.push((c + 1, ((port_idx as u32 + 1) as u32) << 16u32));
    v.push((c + 2, 0));
    v.push((c + 3, 0));
    v.push((2 * c, 0));
    v.push((2 * c + 1, (3u32 << 1u32) | (4u32 << 3u32) | (mp << 16u32)));
    v.push((2 * c + 2, ((ep0_ring_phys as u32) & 0xFFFF_FFF0) | 1));
    v.push((2 * c + 3, (ep0_ring_phys >> 32u64) as u32));
    v.push((2 * c + 4, 8));
    assert(v@ =~= spec_address_context(port_idx, speed, ep0_ring_phys, ctx_dwords as nat));
    v
}

/// Device context index of an endpoint address: twice the endpoint number, plus one for IN.
pub open spec fn spec_dci(address: u8) -> u32 {
    (((address & 0x0F) as u32) * 2 + if address & 0x80 != 0 { 1u32 } else { 0u32 }) as u32
}

pub fn endpoint_dci(address: u8) -> (res: u32)
    ensures
        res == spec_dci(address),
        res <= 31,
{
    assert(address & 0x0F <= 15) by (bit_vector);
    ((address & 0x0F) as u32) * 2 + if address & 0x80 != 0 { 1 } else { 0 }
}

/// The xHCI endpoint type of a USB endpoint: isochronous 1/5, bulk 2/6, interrupt 3/7
/// (OUT/IN), control 4.
pub open spec fn spec_endpoint_type(attributes: u8, is_in: bool) -> u32 {
    let t = attributes & 0x03;
    if t == 1 { if is_in { 5 } else { 1 } } else if t == 2 { if is_in { 6 } else { 2 } } else if t == 3 { if is_in { 7 } else { 3 } } else { 4 }
}

pub fn xhci_endpoint_type(attributes: u8, is_in: bool) -> (res: u32)
    ensures
        res == spec_endpoint_type(attributes, is_in),
{
    let t = attributes & 0x03;
    if t == 1 {
        if is_in { 5 } else { 1 }
    } else if t == 2 {
        if is_in { 6 } else { 2 }
    } else if t == 3 {
        if is_in { 7 } else { 3 }
    } else {
        4
    }
}

/// An endpoint to configure: its address, attributes, max packet size, and the transfer
/// ring set up for it (`None` when none could be allocated: it is still added, but its
/// context is left empty).
pub type EndpointSetup = (u8, u8, u16, Option<u64>);

/// The context writes of one endpoint with a ring.
pub open spec fn spec_endpoint_writes(e: EndpointSetup, c: nat) -> Seq<(usize, u32)> {
    let dci = spec_dci(e.0);
    let off = (dci + 1) * c;
    match e.3 {
        None => Seq::empty(),
        Some(ring) => seq![
            ((off + 1) as usize, (3u32 << 1u32) | (spec_endpoint_type(e.1, e.0 & 0x80 != 0) << 3u32) | ((e.2 as u32) << 16u32)),
            ((off + 2) as usize, ((ring as u32) & 0xFFFF_FFF0) | 1),
            ((off + 3) as usize, (ring >> 32u64) as u32),
            ((off + 4) as usize, 8u32),
        ],
    }
}

/// The endpoint writes, the add-context flags and the largest context index of the first
/// `k` endpoints.
pub open spec fn spec_endpoints_setup(eps: Seq<EndpointSetup>, c: nat, k: nat) -> (Seq<(usize, u32)>, u32, u32)
    decreases k,
{
    if k == 0 || k > eps.len() {
        (Seq::empty(), 0u32, 1u32)
    } else {
        let (w, flags, maxd) = spec_endpoints_setup(eps, c, (k - 1) as nat);
        let dci = spec_dci(eps[k - 1].0);
        (w + spec_endpoint_writes(eps[k - 1], c), flags | (1u32 << dci), if dci > maxd { dci } else { maxd })
    }
}

/// The dword writes of Configure Endpoint: each endpoint's context (in order), then the
/// input control context's add flags and the slot context with the largest context index
/// as its number of entries, the speed and the root port.
pub open spec fn spec_configure_context(eps: Seq<EndpointSetup>, speed: u8, port: u8, c: nat) -> Seq<(usize, u32)> {
    let (w, flags, maxd) = spec_endpoints_setup(eps, c, eps.len());
    w + seq![
        (0usize, 0u32),
        (1usize, flags),
        (c as usize, (maxd << 27u32) | ((speed as u32) << 20u32)),
        ((c + 1) as usize, ((port as u32 + 1) as u32) << 16u32),
    ]
}

proof fn lemma_setup_bounds(eps: Seq<EndpointSetup>, c: nat, k: nat)
    ensures
        spec_endpoints_setup(eps, c, k).2 <= 31,
    decreases k,
{
    if k > 0 && k <= eps.len() {
        lemma_setup_bounds(eps, c, (k - 1) as nat);
        let a = eps[k - 1].0;
        assert(a & 0x0F <= 15) by (bit_vector);
    }
}

pub fn configure_input_context(eps: &[EndpointSetup], speed: u8, port: u8, ctx_dwords: usize) -> (res: Vec<(usize, u32)>)
    requires
        ctx_dwords <= 0x100_0000,
    ensures
        res@ == spec_configure_context(eps@, speed, port, ctx_dwords as nat),
{
    let c = ctx_dwords;
    let mut v: Vec<(usize, u32)> = Vec::new();
    let mut flags: u32 = 0;
    let mut maxd: u32 = 1;
    let mut k: usize = 0;
    while k < eps.len()
        invariant
            k <= eps@.len(),
            c <= 0x100_0000,
            (v@, flags, maxd) == spec_endpoints_setup(eps@, c as nat, k as nat),
        decreases eps@.len() - k,
    {
        let (address, attributes, mps, ring) = eps[k];
        let dci = endpoint_dci(address);
        let ghost pre = v@;
        match ring {
            Some(r) => {
                assert((dci + 1) * c <= 32 * 0x100_0000) by (nonlinear_arith)
                    requires dci <= 31, c <= 0x100_0000;
                let off = (dci as usize + 1) * c;
                let ty = xhci_endpoint_type(attributes, address & 0x80 != 0);
                v.push((off + 1, (3u32 << 1u32) | (ty << 3u32) | ((mps as u32) << 16u32)));
                v.push((off + 2, ((r as u32) & 0xFFFF_FFF0) | 1));
                v.push((off + 3, (r >> 32u64) as u32));
                v.push((off + 4, 8));
                assert(v@ =~= pre + spec_endpoint_writes(eps@[k as int], c as nat));
            },
            None => {
                assert(v@ =~= pre + spec_endpoint_writes(eps@[k as int], c as nat));
            },
        }
        flags = flags | (1u32 << dci);
        if dci > maxd {
            maxd = dci;
        }
        k = k + 1;
    }
    let ghost pre = v@;
    v.push((0, 0));
    v.push((1, flags));
    v.push((c, (maxd << 27u32) | ((speed as u32) << 20u32)));
    v.push((c + 1, ((port as u32 + 1) as u32) << 16u32));
    assert(v@ =~= spec_configure_context(eps@, speed, port, ctx_dwords as nat));
    v
}

/// A command TRB that hands an input context to the controller: Address Device (11) or
/// Configure Endpoint (12), for `slot_id`, with the Block Set Address Request bit when
/// `bsr`.
pub fn context_command_trb(in_ctx_phys: u64, slot_id: u8, trb_type: u32, bsr: bool) -> (res: [u32; 4])
    requires
        trb_type < 64,
    ensures
        res@ == seq![(in_ctx_phys & 0xFFFF_FFF0) as u32, (in_ctx_phys >> 32u64) as u32, 0u32,
            ((slot_id as u32) << 24u32) | (trb_type << 10u32) | (if bsr { 1u32 << 9u32 } else { 0u32 })],
{
    let w = [(in_ctx_phys & 0xFFFF_FFF0) as u32, (in_ctx_phys >> 32u64) as u32, 0u32,
        ((slot_id as u32) << 24u32) | (trb_type << 10u32) | (if bsr { 1u32 << 9u32 } else { 0u32 })];
    assert(w@ =~= seq![(in_ctx_phys & 0xFFFF_FFF0) as u32, (in_ctx_phys >> 32u64) as u32, 0u32,
        ((slot_id as u32) << 24u32) | (trb_type << 10u32) | (if bsr { 1u32 << 9u32 } else { 0u32 })]);
    w
}

/// What to do after a command attempt.
#[derive(Debug, Clone, Copy, PartialEq, Eq, Structural)]
pub enum CommandStep {
    /// The command completed with Success.
    Done,
    /// Try again; the completion code seen so far.
    Retry(u8),
    /// Give up; the last completion code seen.
    Failed(u8),
}

/// After attempt `attempt` (from 0; three in all) of Address Device or Configure Endpoint
/// completed with `cc` (`None`: no completion in time): Success ends it, a Parameter
/// Error (17) is tried again while attempts remain, anything else gives up. `last_cc` is
/// the code of the attempt before.
pub open spec fn spec_command_step(attempt: u32, cc: Option<u8>, last_cc: u8) -> CommandStep {
    match cc {
        Some(1) => CommandStep::Done,
        Some(c) => if c == 17 && attempt < 2 { CommandStep::Retry(c) } else { CommandStep::Failed(c) },
        None => CommandStep::Failed(last_cc),
    }
}

pub fn command_step(attempt: u32, cc: Option<u8>, last_cc: u8) -> (res: CommandStep)
    ensures
        res == spec_command_step(attempt, cc, last_cc),
{
    match cc {
        Some(1) => CommandStep::Done,
        Some(c) => if c == 17 && attempt < 2 { CommandStep::Retry(c) } else { CommandStep::Failed(c) },
        None => CommandStep::Failed(last_cc),
    }
}

/// The TRBs of a control read on the default endpoint: a Setup stage with the request in
/// immediate data (transfer type IN), a Data stage into `buf_phys` (direction IN) and a
/// Status stage with interrupt on completion.
pub fn control_in_trbs(request_type: u8, request: u8, value: u16, index: u16, length: u16, buf_phys: u64)
    -> (res: ([u32; 4], [u32; 4], [u32; 4]))
    ensures
        res.0@ == seq![(request_type as u32) | ((request as u32) << 8u32) | ((value as u32) << 16u32),
            (index as u32) | ((length as u32) << 16u32), 8u32, (2u32 << 10u32) | (1u32 << 6u32) | (3u32 << 16u32)],
        res.1@ == seq![(buf_phys & 0xFFFF_FFF0) as u32, (buf_phys >> 32u64) as u32, length as u32, (3u32 << 10u32) | (1u32 << 16u32)],
        res.2@ == seq![0u32, 0u32, 0u32, (4u32 << 10u32) | (1u32 << 5u32)],
{
    let setup = [(request_type as u32) | ((request as u32) << 8u32) | ((value as u32) << 16u32),
        (index as u32) | ((length as u32) << 16u32), 8u32, (2u32 << 10u32) | (1u32 << 6u32) | (3u32 << 16u32)];
    let data = [(buf_phys & 0xFFFF_FFF0) as u32, (buf_phys >> 32u64) as u32, length as u32, (3u32 << 10u32) | (1u32 << 16u32)];
    let status = [0u32, 0u32, 0u32, (4u32 << 10u32) | (1u32 << 5u32)];
    assert(setup@ =~= seq![(request_type as u32) | ((request as u32) << 8u32) | ((value as u32) << 16u32),
        (index as u32) | ((length as u32) << 16u32), 8u32, (2u32 << 10u32) | (1u32 << 6u32) | (3u32 << 16u32)]);
    assert(data@ =~= seq![(buf_phys & 0xFFFF_FFF0) as u32, (buf_phys >> 32u64) as u32, length as u32, (3u32 << 10u32) | (1u32 << 16u32)]);
    assert(status@ =~= seq![0u32, 0u32, 0u32, (4u32 << 10u32) | (1u32 << 5u32)]);
    (setup, data, status)
}

/// The TRBs of a control request without data (SET_CONFIGURATION): a Setup stage
/// (no data stage) and an IN Status stage with interrupt on completion.
pub fn control_no_data_trbs(request_type: u8, request: u8, value: u16, index: u16) -> (res: ([u32; 4], [u32; 4]))
    ensures
        res.0@ == seq![(request_type as u32) | ((request as u32) << 8u32) | ((value as u32) << 16u32), index as u32, 8u32,
            (2u32 << 10u32) | (1u32 << 6u32)],
        res.1@ == seq![0u32, 0u32, 0u32, (4u32 << 10u32) | (1u32 << 5u32) | (1u32 << 16u32)],
{
    let setup = [(request_type as u32) | ((request as u32) << 8u32) | ((value as u32) << 16u32), index as u32, 8u32,
        (2u32 << 10u32) | (1u32 << 6u32)];
    let status = [0u32, 0u32, 0u32, (4u32 << 10u32) | (1u32 << 5u32) | (1u32 << 16u32)];
    assert(setup@ =~= seq![(request_type as u32) | ((request as u32) << 8u32) | ((value as u32) << 16u32), index as u32, 8u32,
        (2u32 << 10u32) | (1u32 << 6u32)]);
    assert(status@ =~= seq![0u32, 0u32, 0u32, (4u32 << 10u32) | (1u32 << 5u32) | (1u32 << 16u32)]);
    (setup, status)
}

/// After attempt `attempt` (from 0, of `attempts`) of a control transfer whose event was
/// `event` (completion code and TRB type; `None`: none in time): a Transfer Event (32)
/// with Success or Short Packet ends it; a Parameter Error, another kind of event or no
/// event tries again while attempts remain; any other code gives up.
pub open spec fn spec_transfer_step(attempt: u32, attempts: u32, event: Option<(u8, u8)>) -> CommandStep {
    let more = attempt + 1 < attempts;
    match event {
        Some((cc, 32)) => if cc == 1 || cc == 13 { CommandStep::Done } else if cc == 17 && more { CommandStep::Retry(cc) } else { CommandStep::Failed(cc) },
        Some((cc, _)) => if more { CommandStep::Retry(cc) } else { CommandStep::Failed(cc) },
        None => if more { CommandStep::Retry(0) } else { CommandStep::Failed(0) },
    }
}

pub fn transfer_step(attempt: u32, attempts: u32, event: Option<(u8, u8)>) -> (res: CommandStep)
    ensures
        res == spec_transfer_step(attempt, attempts, event),
{
    let more = attempt < attempts && attempts - attempt > 1;
    match event {
        Some((cc, 32)) => if cc == 1 || cc == 13 { CommandStep::Done } else if cc == 17 && more { CommandStep::Retry(cc) } else { CommandStep::Failed(cc) },
        Some((cc, _)) => if more { CommandStep::Retry(cc) } else { CommandStep::Failed(cc) },
        None => if more { CommandStep::Retry(0) } else { CommandStep::Failed(0) },
    }
}

/// What a WRITE (10) does once its status wrapper is read.
#[derive(Debug, Clone, Copy, PartialEq, Eq, Structural)]
pub enum WriteStep {
    /// The command passed.
    Done,
    /// The device reported a failure on the first attempt: ask it REQUEST SENSE, then
    /// write again.
    SenseThenRetry,
    /// Give up.
    Failed,
}

/// After attempt `attempt` (from 0; two in all) of a WRITE (10) whose status wrapper has
/// `signature` and `status`: a wrapper without the `USBS` signature fails; status 0
/// passes; another status asks for sense data and a second attempt, once.
pub open spec fn spec_write_step(attempt: u32, signature: u32, status: u8) -> WriteStep {
    if signature != CSW_SIGNATURE {
        WriteStep::Failed
    } else if status == 0 {
        WriteStep::Done
    } else if attempt == 0 {
        WriteStep::SenseThenRetry
    } else {
        WriteStep::Failed
    }
}

pub fn write_step(attempt: u32, signature: u32, status: u8) -> (res: WriteStep)
    ensures
        res == spec_write_step(attempt, signature, status),
{
    if signature != CSW_SIGNATURE {
        WriteStep::Failed
    } else if status == 0 {
        WriteStep::Done
    } else if attempt == 0 {
        WriteStep::SenseThenRetry
    } else {
        WriteStep::Failed
    }
}

/// The wrapper of REQUEST SENSE: 18 bytes of sense data to the host, six-byte command
/// block `03 00 00 00 12 00`.
pub fn request_sense_wrapper(tag: u32) -> (res: CommandBlockWrapper)
    ensures
        res.d_cbw_signature == CBW_SIGNATURE && res.d_cbw_tag == tag,
        res.d_cbw_data_transfer_length == 18,
        res.bm_cbw_flags == 0x80 && res.b_cbw_lun == 0 && res.b_cbw_cb_length == 6,
        res.cbw_cb@ == seq![0x03u8, 0, 0, 0, 18, 0, 0, 0, 0, 0, 0, 0, 0, 0, 0, 0],
{
    let cb = [0x03u8, 0, 0, 0, 18, 0, 0, 0, 0, 0, 0, 0, 0, 0, 0, 0];
    assert(cb@ =~= seq![0x03u8, 0, 0, 0, 18, 0, 0, 0, 0, 0, 0, 0, 0, 0, 0, 0]);
    CommandBlockWrapper {
        d_cbw_signature: CBW_SIGNATURE,
        d_cbw_tag: tag,
        d_cbw_data_transfer_length: 18,
        bm_cbw_flags: 0x80,
        b_cbw_lun: 0,
        b_cbw_cb_length: 6,
        cbw_cb: cb,
    }
}

/// The sense key, additional sense code and qualifier of fixed-format sense data.
pub fn sense_codes(sense: &[u8]) -> (res: (u8, u8, u8))
    requires
        sense@.len() >= 14,
    ensures
        res == ((sense@[2] & 0x0F) as u8, sense@[12], sense@[13]),
{
    (sense[2] & 0x0F, sense[12], sense[13])
}

/// The reply of READ CAPACITY (10): the number of blocks (the last block's address plus
/// one) and the block size, both big-endian.
pub fn read_capacity(data: &[u8]) -> (res: (u64, u32))
    requires
        data@.len() >= 8,
    ensures
        res.0 == be32(data@, 0) + 1,
        res.1 == be32(data@, 4),
{
    let max_lba = data[0] as u64 * 16777216 + data[1] as u64 * 65536 + data[2] as u64 * 256 + data[3] as u64;
    let block = data[4] as u32 * 16777216 + data[5] as u32 * 65536 + data[6] as u32 * 256 + data[7] as u32;
    (max_lba + 1, block)
}

/// A partition of the MBR: type, first and last sector, size in MiB.
#[derive(Debug, Clone, Copy, PartialEq, Eq, Structural)]
pub struct MbrPartition {
    pub ptype: u8,
    pub lba_start: u64,
    pub lba_end: u64,
    pub size_mb: u32,
}

/// The partition of MBR slot `i` (of four, at byte 446), when its type is not zero. Its
/// last sector is its start plus its length minus one (wrapping when both are zero).
pub open spec fn spec_mbr_slot(mbr: Seq<u8>, i: int) -> Option<MbrPartition> {
    let off = 446 + i * 16;
    let start = le32(mbr, off + 8);
    let count = le32(mbr, off + 12);
    if mbr[off + 4] == 0 {
        None
    } else {
        Some(MbrPartition {
            ptype: mbr[off + 4],
            lba_start: start as u64,
            lba_end: if start + count == 0 { u64::MAX } else { (start + count - 1) as u64 },
            size_mb: (count * 512 / (1024 * 1024)) as u32,
        })
    }
}

/// The partitions of the first `k` slots, in order.
pub open spec fn spec_mbr_parts(mbr: Seq<u8>, k: nat) -> Seq<MbrPartition>
    decreases k,
{
    if k == 0 {
        Seq::empty()
    } else {
        let rest = spec_mbr_parts(mbr, (k - 1) as nat);
        match spec_mbr_slot(mbr, k - 1) {
            Some(p) => rest.push(p),
            None => rest,
        }
    }
}

/// The partition table of a master boot record: `None` without the `0x55 0xAA` boot
/// signature; otherwise the partitions in use and whether one is a GPT protective
/// partition (type `0xEE`).
pub fn mbr_partitions(mbr: &[u8]) -> (res: Option<(Vec<MbrPartition>, bool)>)
    requires
        mbr@.len() == 512,
    ensures
        !(mbr@[510] == 0x55 && mbr@[511] == 0xAA) ==> res is None,
        (mbr@[510] == 0x55 && mbr@[511] == 0xAA) ==> (res matches Some((parts, gpt)) && parts@ == spec_mbr_parts(mbr@, 4)
            && gpt == exists|i: int| 0 <= i < 4 && #[trigger] mbr@[446 + i * 16 + 4] == 0xEE),
{
    if !(mbr[510] == 0x55 && mbr[511] == 0xAA) {
        return None;
    }
    let mut parts: Vec<MbrPartition> = Vec::new();
    let mut gpt = false;
    let mut i: usize = 0;
    while i < 4
        invariant
            mbr@.len() == 512,
            i <= 4,
            parts@ == spec_mbr_parts(mbr@, i as nat),
            gpt == exists|j: int| 0 <= j < i && #[trigger] mbr@[446 + j * 16 + 4] == 0xEE,
        decreases 4 - i,
    {
        let off = 446 + i * 16;
        let ptype = mbr[off + 4];
        if ptype != 0 {
            let start = get_le32(mbr, off + 8) as u64;
            let count = get_le32(mbr, off + 12) as u64;
            let end = if start + count == 0 { u64::MAX } else { start + count - 1 };
            parts.push(MbrPartition { ptype, lba_start: start, lba_end: end, size_mb: (count * 512 / (1024 * 1024)) as u32 });
        }
        if ptype == 0xEE {
            gpt = true;
        }
        proof {
            if !gpt {
                assert forall|j: int| 0 <= j < i + 1 implies #[trigger] mbr@[446 + j * 16 + 4] != 0xEE by {
                    if j == i { assert(mbr@[446 + j * 16 + 4] == ptype); }
                }
            } else {
                if ptype == 0xEE { assert(mbr@[446 + (i as int) * 16 + 4] == 0xEE); }
            }
        }
        i = i + 1;
    }
    Some((parts, gpt))
}

/// Whether the GPT header's fields can be trusted for listing partitions: between 1 and
/// 128 entries of 128 to 512 bytes, and a usable range that starts after sector 0 and is
/// not empty.
pub open spec fn spec_gpt_sane(first_usable: u64, last_usable: u64, num_entries: u32, entry_size: u32) -> bool {
    0 < num_entries <= 128 && 128 <= entry_size <= 512 && last_usable > first_usable && first_usable > 0
}

pub fn gpt_sane(first_usable: u64, last_usable: u64, num_entries: u32, entry_size: u32) -> (res: bool)
    ensures
        res == spec_gpt_sane(first_usable, last_usable, num_entries, entry_size),
{
    num_entries > 0 && num_entries <= 128 && entry_size >= 128 && entry_size <= 512 && last_usable > first_usable
        && first_usable > 0
}

/// The last sector of the MBR partitions among the first `n` slots, leaving out GPT
/// protective ones (0 when there is none).
pub open spec fn mbr_last_end(types: Seq<u8>, ends: Seq<u64>, n: nat) -> u64
    decreases n,
{
    if n == 0 {
        0
    } else {
        let prev = mbr_last_end(types, ends, (n - 1) as nat);
        if types[n - 1] != 0xEE && ends[n - 1] > prev { ends[n - 1] } else { prev }
    }
}

/// Free space on a disk whose GPT cannot be trusted: from the sector after the last MBR
/// partition (after sector 37047 when there is none) to the end of the disk, counted with
/// a floor of zero.
pub fn mbr_free_space(types: &[u8; 8], ends: &[u64; 8], n: u8, total: u64) -> (res: (u64, u64))
    requires
        n <= 8,
        mbr_last_end(types@, ends@, n as nat) < u64::MAX,
    ensures
        res.0 == (if mbr_last_end(types@, ends@, n as nat) == 0 { 37047 } else { mbr_last_end(types@, ends@, n as nat) }) + 1,
        res.1 == (if total > res.0 { total - res.0 } else { 0 }),
{
    let mut last: u64 = 0;
    let mut k: usize = 0;
    while k < n as usize
        invariant
            k <= n <= 8,
            last == mbr_last_end(types@, ends@, k as nat),
        decreases n - k,
    {
        if types[k] != 0xEE && ends[k] > last {
            last = ends[k];
        }
        k = k + 1;
    }
    let free_start = if last == 0 { 37048 } else { last + 1 };
    (free_start, if total > free_start { total - free_start } else { 0 })
}

/// Free space after the GPT partitions, the last of which ends at `max_used`: from the next
/// sector to the last usable one, or to the end of the disk when the usable range is
/// already used up; `None` when that range is empty.
pub open spec fn spec_gpt_free_space(max_used: u64, last_usable: u64, total: u64) -> Option<(u64, u64)> {
    let free_start = max_used + 1;
    let real_end = if free_start >= last_usable && total > free_start { total - 1 } else { last_usable as int };
    if real_end >= free_start { Some((free_start as u64, (real_end - free_start + 1) as u64)) } else { None }
}

pub fn gpt_free_space(max_used: u64, last_usable: u64, total: u64) -> (res: Option<(u64, u64)>)
    requires
        max_used < u64::MAX,
    ensures
        res == spec_gpt_free_space(max_used, last_usable, total),
{
    let free_start = max_used + 1;
    let real_end = if free_start >= last_usable && total > free_start { total - 1 } else { last_usable };
    if real_end >= free_start {
        Some((free_start, real_end - free_start + 1))
    } else {
        None
    }
}

/// A partition entry of the GPT as listed: first and last sector and size in MiB (kept
/// in 32 bits, as the device record holds it).
pub open spec fn spec_gpt_entry(s: Seq<u8>, off: int) -> (u64, u64, u32) {
    let start = le64(s, off + 32);
    let end = le64(s, off + 40);
    (start as u64, end as u64, (((end - start + 1) * 512) / 1048576) as u32)
}

/// Reads the extent of the entry at `off`, whose end is not before its start and whose
/// byte size fits in 64 bits.
pub fn gpt_entry_extent(s: &[u8], off: usize) -> (res: (u64, u64, u32))
    requires
        off + 48 <= s@.len(),
        le64(s@, off + 32) <= le64(s@, off + 40),
        (le64(s@, off + 40) - le64(s@, off + 32) + 1) * 512 <= u64::MAX,
    ensures
        res == spec_gpt_entry(s@, off as int),
{
    let _n = s.len();
    let start = get_le64(s, off + 32);
    let end = get_le64(s, off + 40);
    let sectors = end - start + 1;
    let mb = (sectors * 512) / (1024 * 1024);
    (start, end, #[verifier::truncate] (mb as u32))
}

} // verus!
