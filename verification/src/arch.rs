//! The x86-64 pieces of the kernel that are plain arithmetic: the saved context of a
//! task, the frame pushed on a new task's stack, and how the APICs are programmed (which
//! register gets which value). The register accesses themselves are made by the caller.
use vstd::prelude::*;
use crate::acpi::{AcpiInfo, InterruptOverride};

verus! {

/// The callee-saved registers of a task, its stack pointer and its page table.
#[derive(Debug, Clone, Copy, PartialEq, Eq, Structural)]
pub struct Context {
    pub r15: u64,
    pub r14: u64,
    pub r13: u64,
    pub r12: u64,
    pub rbx: u64,
    pub rbp: u64,
    pub rsp: u64,
    pub cr3: u64,
}

impl Context {
    /// Every register zero.
    pub fn new() -> (res: Self)
        ensures
            res == (Context { r15: 0, r14: 0, r13: 0, r12: 0, rbx: 0, rbp: 0, rsp: 0, cr3: 0 }),
    {
        Context { r15: 0, r14: 0, r13: 0, r12: 0, rbx: 0, rbp: 0, rsp: 0, cr3: 0 }
    }

    /// A zero context on the page table `cr3` (the caller reads the current CR3).
    pub fn with_current_cr3(cr3: u64) -> (res: Self)
        ensures
            res == (Context { cr3, ..Context { r15: 0, r14: 0, r13: 0, r12: 0, rbx: 0, rbp: 0, rsp: 0, cr3: 0 } }),
    {
        Context { cr3, ..Context::new() }
    }

    pub fn set_sp(&mut self, sp: u64)
        ensures
            *final(self) == (Context { rsp: sp, ..*old(self) }),
    {
        self.rsp = sp;
    }

    /// The entry point goes in RBX, where the bootstrap code takes it from.
    pub fn set_entry(&mut self, entry: u64)
        ensures
            *final(self) == (Context { rbx: entry, ..*old(self) }),
    {
        self.rbx = entry;
    }

    pub fn set_page_table(&mut self, cr3: u64)
        ensures
            *final(self) == (Context { cr3, ..*old(self) }),
    {
        self.cr3 = cr3;
    }
}

/// The seven words pushed on a new stack, from the top down (return address, RBP, RBX,
/// R12, R13, R14, R15), and the stack pointer left after them: what a context switch
/// pops to start the task.
pub open spec fn stack_frame(stack_top: u64, ret: u64, rbx: u64, r12: u64) -> (Seq<(u64, u64)>, u64) {
    (seq![((stack_top - 8) as u64, ret), ((stack_top - 16) as u64, 0u64), ((stack_top - 24) as u64, rbx),
        ((stack_top - 32) as u64, r12), ((stack_top - 40) as u64, 0u64), ((stack_top - 48) as u64, 0u64),
        ((stack_top - 56) as u64, 0u64)], (stack_top - 56) as u64)
}

fn push_frame(stack_top: u64, ret: u64, rbx: u64, r12: u64) -> (res: (Vec<(u64, u64)>, u64))
    requires
        stack_top >= 56,
    ensures
        (res.0@, res.1) == stack_frame(stack_top, ret, rbx, r12),
{
    let mut w: Vec<(u64, u64)> = Vec::new();
    w.push((stack_top - 8, ret));
    w.push((stack_top - 16, 0));
    w.push((stack_top - 24, rbx));
    w.push((stack_top - 32, r12));
    w.push((stack_top - 40, 0));
    w.push((stack_top - 48, 0));
    w.push((stack_top - 56, 0));
    assert(w@ =~= stack_frame(stack_top, ret, rbx, r12).0);
    (w, stack_top - 56)
}

/// The stack of a new kernel task: returns into `bootstrap`, which jumps to `entry`
/// (held in RBX). Gives the words to store (address, value) and the new stack pointer.
pub fn init_task_stack(stack_top: u64, entry: u64, bootstrap: u64) -> (res: (Vec<(u64, u64)>, u64))
    requires
        stack_top >= 56,
    ensures
        (res.0@, res.1) == stack_frame(stack_top, bootstrap, entry, 0),
{
    push_frame(stack_top, bootstrap, entry, 0)
}

/// The stack of a new user task: returns into `bootstrap`, with the user entry in RBX
/// and the user stack in R12.
pub fn init_user_stack(stack_top: u64, entry: u64, user_stack: u64, bootstrap: u64) -> (res: (Vec<(u64, u64)>, u64))
    requires
        stack_top >= 56,
    ensures
        (res.0@, res.1) == stack_frame(stack_top, bootstrap, entry, user_stack),
{
    push_frame(stack_top, bootstrap, entry, user_stack)
}

// ---------------------------------------------------------------------------
// APIC.

/// Interrupt vectors: the legacy IRQs start at 32.
pub const PIC_1_OFFSET: u8 = 32;
pub const PIC_2_OFFSET: u8 = 40;
pub const TIMER_INTERRUPT_ID: u8 = 32;
pub const KEYBOARD_INTERRUPT_ID: u8 = 33;
pub const WIFI_INTERRUPT_ID: u8 = 43;

/// The default physical address of the local APIC.
pub const LAPIC_BASE: u64 = 0xFEE0_0000;
pub const LAPIC_ID: u32 = 0x20;
pub const LAPIC_TPR: u32 = 0x80;
pub const LAPIC_EOI: u32 = 0x0B0;
pub const LAPIC_SVR: u32 = 0x0F0;
pub const LAPIC_LVT_TIMER: u32 = 0x320;
pub const LAPIC_TICCONT: u32 = 0x380;
pub const LAPIC_TICCNT: u32 = 0x390;
pub const LAPIC_TDCR: u32 = 0x3E0;

/// A local APIC, by the virtual address of its registers.
pub struct LocalApic {
    pub base: u64,
}

/// An I/O APIC, by the virtual address of its registers.
pub struct IoApic {
    pub base: u64,
}

impl LocalApic {
    /// The APIC at `physical_base`, seen through the direct map at `hhdm`.
    pub fn new(physical_base: u64, hhdm: u64) -> (res: Self)
        requires
            physical_base + hhdm <= u64::MAX,
        ensures
            res.base == physical_base + hhdm,
    {
        LocalApic { base: physical_base + hhdm }
    }
}

impl IoApic {
    /// The I/O APIC at `physical_base`, seen through the direct map at `hhdm`.
    pub fn new(physical_base: u64, hhdm: u64) -> (res: Self)
        requires
            physical_base + hhdm <= u64::MAX,
        ensures
            res.base == physical_base + hhdm,
    {
        IoApic { base: physical_base + hhdm }
    }
}

/// A redirection entry of the I/O APIC: (low register index, low word, high register
/// index, high word). The low word holds the vector, the active-low polarity bit (13)
/// when the MADT flags' polarity is 3, and the level-trigger bit (15) when their trigger
/// mode is 3; the high word holds the destination APIC id.
pub open spec fn redirection(irq: u8, vector: u8, flags: u16, dest: u8) -> (u32, u32, u32, u32) {
    let low: u32 = (vector as u32 + (if flags % 4 == 3 { 0x2000u32 } else { 0 }) + (if flags / 4 % 4 == 3 { 0x8000u32 } else { 0 })) as u32;
    ((0x10 + irq as u32 * 2) as u32, low, (0x11 + irq as u32 * 2) as u32, (dest as u32 * 0x100_0000) as u32)
}

impl IoApic {
    /// The register writes that route `irq` to `vector` on the APIC `dest_apic_id`.
    pub fn set_redirection(&self, irq: u8, vector: u8, flags: u16, dest_apic_id: u8) -> (res: (u32, u32, u32, u32))
        ensures
            res == redirection(irq, vector, flags, dest_apic_id),
    {
        let low_index: u32 = 0x10 + irq as u32 * 2;
        let high_index: u32 = low_index + 1;
        let mut low: u32 = vector as u32;
        if flags % 4 == 3 {
            low = low + 0x2000;
        }
        if flags / 4 % 4 == 3 {
            low = low + 0x8000;
        }
        (low_index, low, high_index, dest_apic_id as u32 * 0x100_0000)
    }
}

/// Where the timer (IRQ 0) and the keyboard (IRQ 1) are routed: GSI 2 and 1 with no
/// flags, unless an override says otherwise (the last one for each wins; the GSI is cut
/// to 8 bits).
pub open spec fn legacy_routes(ovs: Seq<InterruptOverride>, n: nat) -> (u8, u16, u8, u16)
    decreases n,
{
    if n == 0 || n > ovs.len() {
        (2, 0, 1, 0)
    } else {
        let (tg, tf, kg, kf) = legacy_routes(ovs, (n - 1) as nat);
        let o = ovs[n - 1];
        let (tg2, tf2) = if o.source == 0 { (o.global_system_interrupt as u8, o.flags) } else { (tg, tf) };
        let (kg2, kf2) = if o.source == 1 { (o.global_system_interrupt as u8, o.flags) } else { (kg, kf) };
        (tg2, tf2, kg2, kf2)
    }
}

pub fn route_legacy_irqs(overrides: &Vec<InterruptOverride>) -> (res: (u8, u16, u8, u16))
    ensures
        res == legacy_routes(overrides@, overrides@.len()),
{
    let mut timer_gsi: u8 = 2;
    let mut timer_flags: u16 = 0;
    let mut kbd_gsi: u8 = 1;
    let mut kbd_flags: u16 = 0;
    let mut i: usize = 0;
    while i < overrides.len()
        invariant
            i <= overrides@.len(),
            (timer_gsi, timer_flags, kbd_gsi, kbd_flags) == legacy_routes(overrides@, i as nat),
        decreases overrides@.len() - i,
    {
        let o = overrides[i];
        if o.source == 0 {
            timer_gsi = o.global_system_interrupt as u8;
            timer_flags = o.flags;
        }
        if o.source == 1 {
            kbd_gsi = o.global_system_interrupt as u8;
            kbd_flags = o.flags;
        }
        i = i + 1;
    }
    (timer_gsi, timer_flags, kbd_gsi, kbd_flags)
}

/// How the I/O APIC is programmed at boot: the timer's and the keyboard's routes (the
/// timer's entry then masked, bit 16), and IRQ 11 (the WiFi card) level-triggered and
/// active-low, all to the bootstrap processor.
pub struct IoApicPlan {
    pub timer: (u32, u32, u32, u32),
    pub keyboard: (u32, u32, u32, u32),
    pub wifi: (u32, u32, u32, u32),
}

/// What `init_apic` does with the ACPI information: the errors when there is none or no
/// local APIC; otherwise the I/O APIC programming when there is one.
pub fn init_apic(info: Option<&AcpiInfo>, bsp_apic_id: u8) -> (res: Result<Option<IoApicPlan>, &'static str>)
    ensures
        info is None ==> (res matches Err(e) && e@ == "ACPI not initialized"@),
        info is Some && info->0.local_apic_address == 0 ==> (res matches Err(e) && e@ == "No Local APIC address found in ACPI"@),
        info is Some && info->0.local_apic_address != 0 && info->0.ioapic_address == 0 ==> res matches Ok(None),
        info is Some && info->0.local_apic_address != 0 && info->0.ioapic_address != 0 ==> (res matches Ok(Some(p)) && {
            let r = legacy_routes(info->0.overrides@, info->0.overrides@.len());
            let t = redirection(r.0, TIMER_INTERRUPT_ID, r.1, bsp_apic_id);
            &&& p.timer == (t.0, t.1 | 0x1_0000, t.2, t.3)
            &&& p.keyboard == redirection(r.2, KEYBOARD_INTERRUPT_ID, r.3, bsp_apic_id)
            &&& p.wifi == redirection(11, WIFI_INTERRUPT_ID, 0x000F, bsp_apic_id)
        }),
{
    let i = match info {
        Some(i) => i,
        None => return Err("ACPI not initialized"),
    };
    if i.local_apic_address == 0 {
        return Err("No Local APIC address found in ACPI");
    }
    if i.ioapic_address == 0 {
        return Ok(None);
    }
    let io = IoApic { base: 0 };
    let (tg, tf, kg, kf) = route_legacy_irqs(&i.overrides);
    let t = io.set_redirection(tg, TIMER_INTERRUPT_ID, tf, bsp_apic_id);
    let k = io.set_redirection(kg, KEYBOARD_INTERRUPT_ID, kf, bsp_apic_id);
    let w = io.set_redirection(11, WIFI_INTERRUPT_ID, 0x000F, bsp_apic_id);
    Ok(Some(IoApicPlan { timer: (t.0, t.1 | 0x1_0000, t.2, t.3), keyboard: k, wifi: w }))
}

/// The PIT's frequency in Hz.
pub const PIT_FREQ: u64 = 1_193_182;
/// The PIT count of the 10 ms calibration window.
pub const PIT_CALIBRATION_COUNT: u16 = 11931;

/// The local APIC timer's frequency from its count left after the calibration window
/// (counting down from 0xFFFF_FFFF).
pub fn lapic_hz_from(remaining: u32) -> (res: u64)
    ensures
        res == (0xFFFF_FFFFu32 - remaining) as nat * 1_193_182 / 11931,
{
    let elapsed = (0xFFFF_FFFFu32 - remaining) as u64;
    elapsed * PIT_FREQ / PIT_CALIBRATION_COUNT as u64
}

/// The calibrated timer frequency, once set.
pub struct LapicTimer {
    pub hz: u64,
}

impl LapicTimer {
    /// Not calibrated yet: the frequency reads 0.
    pub fn new() -> (res: Self)
        ensures
            res.hz == 0,
    {
        LapicTimer { hz: 0 }
    }

    /// Records the calibration that left `remaining` counts: the measured frequency,
    /// at least 1 Hz, which is what a successful `init_apic` stores.
    pub fn calibrated(remaining: u32) -> (res: Self)
        ensures
            res.hz == if (0xFFFF_FFFFu32 - remaining) as nat * 1_193_182 / 11931 >= 1 {
                (0xFFFF_FFFFu32 - remaining) as nat * 1_193_182 / 11931
            } else {
                1
            },
            res.hz >= 1,
    {
        let hz = lapic_hz_from(remaining);
        LapicTimer { hz: if hz >= 1 { hz } else { 1 } }
    }
}

/// The calibrated frequency (0 before calibration).
pub fn lapic_timer_hz(t: &LapicTimer) -> (res: u64)
    ensures
        res == t.hz,
{
    t.hz
}

/// The periodic timer's setup for about 100 interrupts a second: (initial count, LVT
/// timer value); the count is at least one tick.
pub fn lapic_timer_setup(hz: u64) -> (res: (u32, u32))
    ensures
        res.0 == (if hz / 100 > 1 { (hz / 100) as u32 } else { 1u32 }),
        res.1 == TIMER_INTERRUPT_ID as u32 + 0x2_0000,
{
    let ticks: u64 = if hz / 100 > 1 { hz / 100 } else { 1 };
    (#[verifier::truncate] (ticks as u32), TIMER_INTERRUPT_ID as u32 + 0x2_0000)
}

/// Where the end of an interrupt is signalled: the local APIC when ACPI gave one, else
/// the legacy PIC.
#[derive(Debug, Clone, Copy, PartialEq, Eq, Structural)]
pub enum EoiTarget {
    LocalApic(u64),
    Pic,
}

pub fn send_eoi(info: Option<&AcpiInfo>) -> (res: EoiTarget)
    ensures
        info is Some && info->0.local_apic_address != 0 ==> res == EoiTarget::LocalApic(info->0.local_apic_address),
        !(info is Some && info->0.local_apic_address != 0) ==> res == EoiTarget::Pic,
{
    match info {
        Some(i) => if i.local_apic_address != 0 { EoiTarget::LocalApic(i.local_apic_address) } else { EoiTarget::Pic },
        None => EoiTarget::Pic,
    }
}

} // verus!
