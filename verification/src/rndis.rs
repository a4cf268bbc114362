//! RNDIS over USB: the INITIALIZE message a host sends to bind a device, and the
//! network hooks, which this driver does not implement yet.
use vstd::prelude::*;
use crate::bytes::{le32, set_le32};
use crate::mesa_fs::zeros;

verus! {

/// The header every RNDIS message starts with.
#[allow(non_camel_case_types)]
#[derive(Debug, Clone, Copy, PartialEq, Eq, Structural)]
pub struct rndis_msg_hdr {
    pub msg_type: u32,
    pub msg_len: u32,
    pub rid: u32,
}

/// REMOTE_NDIS_INITIALIZE_MSG.
#[allow(non_camel_case_types)]
#[derive(Debug, Clone, Copy, PartialEq, Eq, Structural)]
pub struct rndis_init_msg {
    pub hdr: rndis_msg_hdr,
    pub major: u32,
    pub minor: u32,
    pub max_transfer: u32,
}

/// An INITIALIZE message of type `msg_type` (24 bytes, request 1, version 1.0,
/// transfers of up to 16 KiB).
pub fn init_message(msg_type: u32) -> (res: rndis_init_msg)
    ensures
        res == (rndis_init_msg { hdr: rndis_msg_hdr { msg_type, msg_len: 24, rid: 1 }, major: 1, minor: 0, max_transfer: 16384 }),
{
    rndis_init_msg { hdr: rndis_msg_hdr { msg_type, msg_len: 24, rid: 1 }, major: 1, minor: 0, max_transfer: 16384 }
}

/// The message's 24 bytes on the wire: its six fields, little-endian, in order.
pub fn init_message_bytes(m: &rndis_init_msg) -> (res: Vec<u8>)
    ensures
        res@.len() == 24,
        le32(res@, 0) == m.hdr.msg_type,
        le32(res@, 4) == m.hdr.msg_len,
        le32(res@, 8) == m.hdr.rid,
        le32(res@, 12) == m.major,
        le32(res@, 16) == m.minor,
        le32(res@, 20) == m.max_transfer,
{
    let mut v = zeros(24);
    let vals: [u32; 6] = [m.hdr.msg_type, m.hdr.msg_len, m.hdr.rid, m.major, m.minor, m.max_transfer];
    let mut k: usize = 0;
    while k < 6
        invariant
            v@.len() == 24,
            k <= 6,
            vals@ == seq![m.hdr.msg_type, m.hdr.msg_len, m.hdr.rid, m.major, m.minor, m.max_transfer],
            forall|j: int| 0 <= j < k ==> le32(v@, 4 * j) == vals@[j],
        decreases 6 - k,
    {
        let ghost before = v@;
        set_le32(&mut v, 4 * k, vals[k]);
        proof {
            crate::bytes::lemma_le32_roundtrip(before, 4 * k as int, vals@[k as int]);
            assert forall|j: int| 0 <= j < k + 1 implies le32(v@, 4 * j) == vals@[j] by {
                if j < k {
                    assert(v@[4 * j] == before[4 * j] && v@[4 * j + 1] == before[4 * j + 1]
                        && v@[4 * j + 2] == before[4 * j + 2] && v@[4 * j + 3] == before[4 * j + 3]);
                }
            }
        }
        k = k + 1;
    }
    assert(le32(v@, 4 * 0int) == vals@[0] && le32(v@, 4 * 1int) == vals@[1] && le32(v@, 4 * 2int) == vals@[2]);
    assert(le32(v@, 4 * 3int) == vals@[3] && le32(v@, 4 * 4int) == vals@[4] && le32(v@, 4 * 5int) == vals@[5]);
    v
}

/// Sending a frame over RNDIS is not implemented: it always fails.
pub fn usb_net_tx(data: &[u8]) -> (res: Result<(), &'static str>)
    ensures
        res matches Err(e) && e@ == "RNDIS TX not yet implemented"@,
{
    Err("RNDIS TX not yet implemented")
}

/// Receiving over RNDIS is not implemented: nothing ever arrives.
pub fn usb_net_poll() -> (res: Option<Vec<u8>>)
    ensures
        res is None,
{
    None
}

} // verus!
