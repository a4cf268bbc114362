//! The active network card: the virtio device when it is up (virtual machines), the
//! RTL8139 otherwise.
use vstd::prelude::*;
use crate::rtl8139::{Rtl8139, TxSlot};

verus! {

/// Which card carries traffic.
#[derive(Debug, Clone, Copy, PartialEq, Eq, Structural)]
pub enum Nic {
    Virtio,
    Rtl8139,
}

/// The virtio device is the active card whenever it is up.
pub fn is_virtio(virtio_active: bool) -> (res: bool)
    ensures
        res == virtio_active,
{
    virtio_active
}

pub fn active_nic(virtio_active: bool) -> (res: Nic)
    ensures
        res == if virtio_active { Nic::Virtio } else { Nic::Rtl8139 },
{
    if virtio_active { Nic::Virtio } else { Nic::Rtl8139 }
}

/// The MAC of the active card.
pub fn mac(virtio_active: bool, virtio_mac: Option<[u8; 6]>, rtl: Option<&Rtl8139>) -> (res: Option<[u8; 6]>)
    ensures
        res == if virtio_active { virtio_mac } else { match rtl { Some(d) => Some(d.mac), None => None::<[u8; 6]> } },
{
    if virtio_active {
        virtio_mac
    } else {
        match rtl {
            Some(d) => Some(d.get_mac()),
            None => None,
        }
    }
}

/// Sending on the RTL8139 path: the card must be set up, then it takes a descriptor.
pub fn rtl_send(rtl: Option<&mut Rtl8139>, len: usize) -> (res: Result<TxSlot, &'static str>)
    requires
        match rtl { Some(d) => d.wf() && d.io_base + 0x30 <= u16::MAX, None => true },
    ensures
        rtl is None ==> (res matches Err(e) && e@ == "Driver not initialized"@),
        rtl is Some && len > 1536 ==> (res matches Err(e) && e@ == "Packet too large"@),
        rtl is Some && len <= 1536 ==> res is Ok,
{
    match rtl {
        None => Err("Driver not initialized"),
        Some(d) => d.send_packet(len),
    }
}

} // verus!
