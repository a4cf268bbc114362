//! Root-hub port bring-up of the xHCI controller: the PORTSC fields the driver reads,
//! the values it writes to reset, warm-reset and power-cycle a port, and what it does
//! next after each read.
//!
//! PORTSC's PED bit (1) and change bits (17..23) are write-1-to-clear: every value
//! written here clears them in what was read, and sets only the change bit being
//! acknowledged.
use vstd::prelude::*;

verus! {

/// PED and the change bits 17..23.
pub const PORTSC_W1C: u32 = 0x00FE_0002;
pub const PORTSC_CCS: u32 = 1;
pub const PORTSC_PED: u32 = 2;
pub const PORTSC_PR: u32 = 0x10;
pub const PORTSC_PP: u32 = 0x200;
pub const PORTSC_WRC: u32 = 0x8_0000;
pub const PORTSC_PRC: u32 = 0x20_0000;
pub const PORTSC_WPR: u32 = 0x1000_0000;

/// The register block's physical address from BAR0 and BAR1: BAR0's type field
/// (bits 1..2) equal to 0b10 marks a 64-bit BAR, whose high half is BAR1.
pub open spec fn spec_controller_base(bar0: u32, bar1: u32) -> u64 {
    if (bar0 >> 1u32) & 3 == 2 {
        ((bar1 as u64) << 32u64) | ((bar0 & 0xFFFF_FFF0u32) as u64)
    } else {
        (bar0 & 0xFFFF_FFF0u32) as u64
    }
}

pub fn controller_base(bar0: u32, bar1: u32) -> (res: u64)
    ensures
        res == spec_controller_base(bar0, bar1),
{
    let is_64bit = ((bar0 >> 1u32) & 3) == 2;
    if is_64bit {
        ((bar1 as u64) << 32u64) | ((bar0 & 0xFFFF_FFF0u32) as u64)
    } else {
        (bar0 & 0xFFFF_FFF0u32) as u64
    }
}

/// Device-context size in bytes: 64 when HCCPARAMS1.CSZ is set, else 32.
pub fn context_size(csz: bool) -> (res: u32)
    ensures
        res == if csz { 64u32 } else { 32u32 },
{
    if csz { 64 } else { 32 }
}

/// Address of port `i`'s PORTSC register (ports counted from 0), after the
/// capability registers (`caplength` bytes) and the 0x400 bytes of operational registers.
pub fn portsc_address(bar0: u64, caplength: u8, i: u8) -> (res: u64)
    requires
        bar0 + 0x2000 <= u64::MAX,
    ensures
        res == bar0 + caplength + 0x400 + i * 0x10,
{
    bar0 + caplength as u64 + 0x400 + i as u64 * 0x10
}

/// A device is attached (CCS).
pub open spec fn spec_connected(v: u32) -> bool { v & 1 != 0 }
/// The port is enabled (PED).
pub open spec fn spec_enabled(v: u32) -> bool { v & 2 != 0 }
/// Port link state, bits 5..8.
pub open spec fn spec_link_state(v: u32) -> u32 { (v >> 5u32) & 0xF }
/// Port speed, bits 10..13.
pub open spec fn spec_speed(v: u32) -> u32 { (v >> 10u32) & 0xF }

/// The fields of a PORTSC read.
#[derive(Debug, Clone, Copy, PartialEq, Eq, Structural)]
pub struct PortStatus {
    pub connected: bool,
    pub enabled: bool,
    pub link_state: u8,
    pub speed: u8,
}

pub fn port_status(v: u32) -> (res: PortStatus)
    ensures
        res.connected == spec_connected(v),
        res.enabled == spec_enabled(v),
        res.link_state as u32 == spec_link_state(v),
        res.speed as u32 == spec_speed(v),
{
    let pls = (v >> 5u32) & 0xF;
    let speed = (v >> 10u32) & 0xF;
    assert(pls < 16 && speed < 16) by (bit_vector)
        requires
            pls == (v >> 5u32) & 0xF,
            speed == (v >> 10u32) & 0xF,
    ;
    PortStatus { connected: v & 1 != 0, enabled: v & 2 != 0, link_state: pls as u8, speed: speed as u8 }
}

/// The write that starts a port reset (PR), from the value read.
pub open spec fn spec_reset_request(v: u32) -> u32 { (v & !PORTSC_W1C) | PORTSC_PR }
/// The write that acknowledges a finished reset (PRC), from the value read.
pub open spec fn spec_ack_reset(v: u32) -> u32 { (v & !PORTSC_W1C) | PORTSC_PRC }
/// The write that starts a warm reset (WPR), from the value read.
pub open spec fn spec_warm_reset_request(v: u32) -> u32 { (v & !PORTSC_W1C) | PORTSC_WPR }
/// The write that acknowledges a finished warm reset (WRC and PRC), from the value read.
pub open spec fn spec_ack_warm_reset(v: u32) -> u32 { (v & !PORTSC_W1C) | PORTSC_WRC | PORTSC_PRC }

pub fn reset_request(v: u32) -> (res: u32)
    ensures
        res == spec_reset_request(v),
        res & PORTSC_W1C == 0,
        res & PORTSC_PR != 0,
{
    let r = (v & !PORTSC_W1C) | PORTSC_PR;
    assert(r & 0x00FE_0002u32 == 0 && r & 0x10u32 != 0) by (bit_vector)
        requires
            r == (v & !0x00FE_0002u32) | 0x10u32,
    ;
    r
}

pub fn ack_reset(v: u32) -> (res: u32)
    ensures
        res == spec_ack_reset(v),
        res & PORTSC_W1C == PORTSC_PRC,
{
    let r = (v & !PORTSC_W1C) | PORTSC_PRC;
    assert(r & 0x00FE_0002u32 == 0x20_0000u32) by (bit_vector)
        requires
            r == (v & !0x00FE_0002u32) | 0x20_0000u32,
    ;
    r
}

pub fn warm_reset_request(v: u32) -> (res: u32)
    ensures
        res == spec_warm_reset_request(v),
        res & PORTSC_W1C == 0,
{
    let r = (v & !PORTSC_W1C) | PORTSC_WPR;
    assert(r & 0x00FE_0002u32 == 0) by (bit_vector)
        requires
            r == (v & !0x00FE_0002u32) | 0x1000_0000u32,
    ;
    r
}

pub fn ack_warm_reset(v: u32) -> (res: u32)
    ensures
        res == spec_ack_warm_reset(v),
        res & PORTSC_W1C == 0x28_0000,
{
    let r = (v & !PORTSC_W1C) | PORTSC_WRC | PORTSC_PRC;
    assert(r & 0x00FE_0002u32 == 0x28_0000u32) by (bit_vector)
        requires
            r == (v & !0x00FE_0002u32) | 0x8_0000u32 | 0x20_0000u32,
    ;
    r
}

/// Port power off and on (PP), from the value read.
pub fn power_off(v: u32) -> (res: u32)
    ensures
        res == v & !PORTSC_PP,
{
    v & !PORTSC_PP
}

pub fn power_on(v: u32) -> (res: u32)
    ensures
        res == v | PORTSC_PP,
{
    v | PORTSC_PP
}

/// A reset has finished: PRC or PED is set.
pub fn reset_finished(v: u32) -> (res: bool)
    ensures
        res == (v & PORTSC_PRC != 0 || v & PORTSC_PED != 0),
{
    v & PORTSC_PRC != 0 || v & PORTSC_PED != 0
}

/// A warm reset has finished: WRC or PRC is set.
pub fn warm_reset_finished(v: u32) -> (res: bool)
    ensures
        res == (v & (PORTSC_WRC | PORTSC_PRC) != 0),
{
    v & (PORTSC_WRC | PORTSC_PRC) != 0
}

/// What the driver does with a port after a reset that reported speed `speed`.
#[derive(Debug, Clone, Copy, PartialEq, Eq, Structural)]
pub enum PortRecovery {
    /// The port is usable.
    Ready,
    /// A SuperSpeed port that is not enabled: warm reset it (up to three times).
    WarmReset,
    /// A USB 2 port that is not enabled: cycle its power, then reset it again.
    PowerCycle,
}

/// After a reset: a port that is enabled and neither Disabled (link state 4) nor in
/// Compliance Mode (8) is ready; otherwise SuperSpeed ports (speed 4 and up) are
/// warm-reset and the others power-cycled.
pub open spec fn spec_after_reset(v: u32, speed: u8) -> PortRecovery {
    if spec_enabled(v) && spec_link_state(v) != 4 && spec_link_state(v) != 8 {
        PortRecovery::Ready
    } else if speed >= 4 {
        PortRecovery::WarmReset
    } else {
        PortRecovery::PowerCycle
    }
}

pub fn after_reset(v: u32, speed: u8) -> (res: PortRecovery)
    ensures
        res == spec_after_reset(v, speed),
{
    let st = port_status(v);
    if !st.enabled || st.link_state == 4 || st.link_state == 8 {
        if speed >= 4 { PortRecovery::WarmReset } else { PortRecovery::PowerCycle }
    } else {
        PortRecovery::Ready
    }
}

/// After a warm reset: the port came back if it is enabled and connected; then with
/// the speed it now reports.
pub fn warm_reset_outcome(v: u32) -> (res: Option<u8>)
    ensures
        match res {
            Some(s) => spec_enabled(v) && spec_connected(v) && s as u32 == spec_speed(v),
            None => !(spec_enabled(v) && spec_connected(v)),
        },
{
    let st = port_status(v);
    if st.enabled && st.connected { Some(st.speed) } else { None }
}

/// Size in bytes of the device context base address array for `max_slots` slots
/// (one more entry, for the scratchpad pointer).
pub fn dcbaa_bytes(max_slots: u8) -> (res: usize)
    ensures
        res == (max_slots + 1) * 8,
{
    (max_slots as usize + 1) * 8
}

} // verus!
