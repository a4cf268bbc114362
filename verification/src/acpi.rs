//! ACPI tables: the RSDP, the root table's entries, and what the kernel takes from the
//! FADT (the DSDT and the 8042 flag) and the MADT (local APIC, I/O APIC, interrupt
//! source overrides). The tables' bytes are read from memory by the caller.
use vstd::prelude::*;
use crate::bytes::{get_le16, get_le32, get_le64, le16, le32, le64};
use crate::text::{spec_utf8_lossy, utf8_lossy};

verus! {

/// The RSDP of ACPI 1.0.
pub struct Rsdp {
    pub signature: [u8; 8],
    pub checksum: u8,
    pub oem_id: [u8; 6],
    pub revision: u8,
    pub rsdt_address: u32,
}

/// The RSDP of ACPI 2.0 and later.
pub struct Rsdp2 {
    pub signature: [u8; 8],
    pub checksum: u8,
    pub oem_id: [u8; 6],
    pub revision: u8,
    pub rsdt_address: u32,
    pub length: u32,
    pub xsdt_address: u64,
    pub extended_checksum: u8,
    pub reserved: [u8; 3],
}

/// The header shared by every system description table.
pub struct SdtHeader {
    pub signature: [u8; 4],
    pub length: u32,
    pub revision: u8,
    pub checksum: u8,
    pub oem_id: [u8; 6],
    pub oem_table_id: [u8; 8],
    pub oem_revision: u32,
    pub creator_id: u32,
    pub creator_revision: u32,
}

/// The fixed part of the MADT.
pub struct Madt {
    pub header: SdtHeader,
    pub local_apic_address: u32,
    pub flags: u32,
}

/// MADT entry 0: a processor's local APIC.
pub struct MadtLocalApic {
    pub entry_type: u8,
    pub length: u8,
    pub processor_id: u8,
    pub apic_id: u8,
    pub flags: u32,
}

/// MADT entry 1: an I/O APIC.
pub struct MadtIoApic {
    pub entry_type: u8,
    pub length: u8,
    pub ioapic_id: u8,
    pub reserved: u8,
    pub ioapic_address: u32,
    pub gsi_base: u32,
}

/// MADT entry 2: an interrupt source override.
pub struct MadtInterruptOverride {
    pub entry_type: u8,
    pub length: u8,
    pub bus: u8,
    pub source: u8,
    pub gsi: u32,
    pub flags: u16,
}

impl SdtHeader {
    /// The header laid out in the first 36 bytes of a table.
    pub fn from_bytes(b: &[u8]) -> (res: Self)
        requires
            b@.len() >= 36,
        ensures
            res.signature@ == b@.subrange(0, 4),
            res.length == le32(b@, 4) && res.revision == b@[8] && res.checksum == b@[9],
            res.oem_id@ == b@.subrange(10, 16),
            res.oem_table_id@ == b@.subrange(16, 24),
            res.oem_revision == le32(b@, 24) && res.creator_id == le32(b@, 28) && res.creator_revision == le32(b@, 32),
    {
        let sig = [b[0], b[1], b[2], b[3]];
        let oem = [b[10], b[11], b[12], b[13], b[14], b[15]];
        let tid = [b[16], b[17], b[18], b[19], b[20], b[21], b[22], b[23]];
        assert(sig@ =~= b@.subrange(0, 4));
        assert(oem@ =~= b@.subrange(10, 16));
        assert(tid@ =~= b@.subrange(16, 24));
        SdtHeader {
            signature: sig,
            length: get_le32(b, 4),
            revision: b[8],
            checksum: b[9],
            oem_id: oem,
            oem_table_id: tid,
            oem_revision: get_le32(b, 24),
            creator_id: get_le32(b, 28),
            creator_revision: get_le32(b, 32),
        }
    }
}

/// A processor-to-system interrupt mapping from the MADT.
#[derive(Debug, Clone, Copy, PartialEq, Eq, Structural)]
pub struct InterruptOverride {
    pub source: u8,
    pub global_system_interrupt: u32,
    pub flags: u16,
}

/// What the kernel keeps of the ACPI tables.
pub struct AcpiInfo {
    pub rsdp_address: u64,
    pub revision: u8,
    pub oem_id: String,
    pub local_apic_address: u64,
    pub ioapic_address: u64,
    pub cpu_count: usize,
    pub cpu_ids: Vec<u8>,
    pub overrides: Vec<InterruptOverride>,
    pub has_8042: bool,
}

/// A physical address as seen through the higher-half direct map: addresses below the
/// map's offset are moved up by it.
pub open spec fn spec_to_virt(addr: u64, hhdm: u64) -> u64 {
    if addr < hhdm { (addr + hhdm) as u64 } else { addr }
}

pub fn to_virt(addr: u64, hhdm: u64) -> (res: u64)
    requires
        addr < hhdm ==> addr + hhdm <= u64::MAX,
    ensures
        res == spec_to_virt(addr, hhdm),
{
    if addr < hhdm { addr + hhdm } else { addr }
}

/// `RSD PTR `.
pub open spec fn is_rsdp(b: Seq<u8>) -> bool {
    b.len() >= 8 && b[0] == 0x52 && b[1] == 0x53 && b[2] == 0x44 && b[3] == 0x20 && b[4] == 0x50 && b[5] == 0x54
        && b[6] == 0x52 && b[7] == 0x20
}

/// Where the root table is: (is it the XSDT, its address, the RSDP revision).
pub open spec fn spec_root(b: Seq<u8>) -> Result<(bool, u64, u8), Seq<char>> {
    if !is_rsdp(b) {
        Err("RSDP signature mismatch"@)
    } else {
        let rev = b[15];
        let root: u64 = if rev >= 2 { le64(b, 24) as u64 } else { le32(b, 16) as u64 };
        if root == 0 { Err("Root table address is null"@) } else { Ok((rev >= 2, root, rev)) }
    }
}

/// Finds the root table from the RSDP's 36 bytes.
pub fn rsdp_root(b: &[u8]) -> (res: Result<(bool, u64, u8), &'static str>)
    requires
        b@.len() >= 36,
    ensures
        match spec_root(b@) {
            Ok(x) => res == Ok::<(bool, u64, u8), &'static str>(x),
            Err(m) => res matches Err(e) && e@ == m,
        },
{
    if !(b[0] == 0x52 && b[1] == 0x53 && b[2] == 0x44 && b[3] == 0x20 && b[4] == 0x50 && b[5] == 0x54 && b[6] == 0x52
        && b[7] == 0x20) {
        return Err("RSDP signature mismatch");
    }
    let rev = b[15];
    let root: u64 = if rev >= 2 { get_le64(b, 24) } else { get_le32(b, 16) as u64 };
    if root == 0 {
        return Err("Root table address is null");
    }
    Ok((rev >= 2, root, rev))
}

/// The table addresses listed by a root table (XSDT: 64-bit entries; RSDT: 32-bit).
pub open spec fn root_entries_spec(t: Seq<u8>, is_xsdt: bool) -> Seq<u64> {
    let sz: int = if is_xsdt { 8 } else { 4 };
    let n = (le32(t, 4) - 36) / sz;
    Seq::new(n as nat, |i: int| if is_xsdt { le64(t, 36 + i * 8) as u64 } else { le32(t, 36 + i * 4) as u64 })
}

/// The entries of the root table, which must hold the number of bytes its header says.
pub fn root_entries(t: &[u8], is_xsdt: bool) -> (res: Result<Vec<u64>, &'static str>)
    requires
        t@.len() >= 8,
        le32(t@, 4) >= 36 ==> t@.len() >= le32(t@, 4),
    ensures
        le32(t@, 4) < 36 ==> (res matches Err(e) && e@ == "Root table length invalid"@),
        le32(t@, 4) >= 36 ==> (res matches Ok(v) && v@ == root_entries_spec(t@, is_xsdt)),
{
    let len = get_le32(t, 4);
    if len < 36 {
        return Err("Root table length invalid");
    }
    let sz: usize = if is_xsdt { 8 } else { 4 };
    let n: usize = (len as usize - 36) / sz;
    let mut v: Vec<u64> = Vec::new();
    let mut i: usize = 0;
    while i < n
        invariant
            t@.len() >= le32(t@, 4),
            le32(t@, 4) == len,
            len >= 36,
            sz == (if is_xsdt { 8usize } else { 4usize }),
            n == (len - 36) / (sz as int),
            i <= n,
            v@ == root_entries_spec(t@, is_xsdt).subrange(0, i as int),
        decreases n - i,
    {
        assert(36 + i * sz + sz <= len) by (nonlinear_arith)
            requires i < n, n == (len - 36) / (sz as int), sz > 0, len >= 36;
        let e: u64 = if is_xsdt { get_le64(t, 36 + i * 8) } else { get_le32(t, 36 + i * 4) as u64 };
        v.push(e);
        i = i + 1;
        assert(v@ =~= root_entries_spec(t@, is_xsdt).subrange(0, i as int));
    }
    assert(v@ =~= root_entries_spec(t@, is_xsdt));
    Ok(v)
}

/// What is being gathered while the root table's entries are visited.
pub struct AcpiScan {
    pub revision: u8,
    pub lapic: u64,
    pub ioapic: u64,
    pub overrides: Vec<InterruptOverride>,
    pub has_8042: bool,
    pub dsdt_phys: u64,
    pub ssdt_phys: Vec<u64>,
}

/// The FADT's contribution: the 8042 flag (bit 1 of the boot architecture flags at byte
/// 109, when the table reaches byte 111) and the DSDT (X_DSDT at 140 in revision 2 and
/// later when present and not zero, else the 32-bit DSDT at 40).
pub open spec fn fadt_8042(t: Seq<u8>, len: u32, before: bool) -> bool {
    if len >= 111 { (le16(t, 109) as u16) & 2 != 0 } else { before }
}

pub open spec fn fadt_dsdt(t: Seq<u8>, len: u32, revision: u8) -> u64 {
    let dsdt: u64 = if len >= 44 { le32(t, 40) as u64 } else { 0 };
    let x: u64 = if revision >= 2 && len >= 148 { le64(t, 140) as u64 } else { 0 };
    if x != 0 { x } else { dsdt }
}

/// The MADT's entries from `off`: (I/O APIC with GSI base 0, overrides).
pub open spec fn madt_walk(t: Seq<u8>, len: u32, off: nat, ioapic: u64) -> (u64, Seq<InterruptOverride>)
    decreases len - off,
{
    let p: int = off as int;
    if off >= len || off + 2 > t.len() {
        (ioapic, Seq::empty())
    } else {
        let typ = t[p];
        let elen = t[p + 1] as nat;
        if elen < 2 || off + elen > len {
            (ioapic, Seq::empty())
        } else if typ == 1 && elen >= 12 {
            let addr = le32(t, p + 4) as u64;
            let io2 = if le32(t, p + 8) == 0 { addr } else { ioapic };
            madt_walk(t, len, off + elen, io2)
        } else if typ == 2 && elen >= 10 {
            let o = InterruptOverride { source: t[p + 3], global_system_interrupt: le32(t, p + 4) as u32,
                flags: le16(t, p + 8) as u16 };
            let rest = madt_walk(t, len, off + elen, ioapic);
            (rest.0, seq![o] + rest.1)
        } else {
            madt_walk(t, len, off + elen, ioapic)
        }
    }
}

impl AcpiScan {
    pub fn new(revision: u8) -> (res: Self)
        ensures
            res.revision == revision && res.lapic == 0 && res.ioapic == 0 && res.overrides@.len() == 0,
            res.has_8042 && res.dsdt_phys == 0 && res.ssdt_phys@.len() == 0,
    {
        AcpiScan {
            revision,
            lapic: 0,
            ioapic: 0,
            overrides: Vec::new(),
            has_8042: true,
            dsdt_phys: 0,
            ssdt_phys: Vec::new(),
        }
    }

    /// Takes in the table found at `phys`, whose bytes (as many as its header's length)
    /// are `t`. Tables shorter than a header are ignored, and so are MADTs too short for
    /// their fixed part.
    pub fn visit(&mut self, phys: u64, t: &[u8])
        requires
            t@.len() >= 8,
            t@.len() >= le32(t@, 4),
        ensures
            final(self).revision == old(self).revision,
            ({
                let len = le32(t@, 4);
                let sig = t@.subrange(0, 4);
                if len < 36 {
                    *final(self) == *old(self)
                } else if sig == seq![0x46u8, 0x41, 0x43, 0x50] {
                    &&& final(self).has_8042 == fadt_8042(t@, len as u32, old(self).has_8042)
                    &&& final(self).dsdt_phys == fadt_dsdt(t@, len as u32, old(self).revision)
                    &&& final(self).lapic == old(self).lapic && final(self).ioapic == old(self).ioapic
                    &&& final(self).overrides@ == old(self).overrides@ && final(self).ssdt_phys@ == old(self).ssdt_phys@
                } else if sig == seq![0x41u8, 0x50, 0x49, 0x43] {
                    if len < 44 {
                        *final(self) == *old(self)
                    } else {
                        let w = madt_walk(t@, len as u32, 44, old(self).ioapic);
                        &&& final(self).lapic == le32(t@, 36)
                        &&& final(self).ioapic == w.0
                        &&& final(self).overrides@ == old(self).overrides@ + w.1
                        &&& final(self).has_8042 == old(self).has_8042 && final(self).dsdt_phys == old(self).dsdt_phys
                        &&& final(self).ssdt_phys@ == old(self).ssdt_phys@
                    }
                } else if sig == seq![0x53u8, 0x53, 0x44, 0x54] {
                    &&& final(self).ssdt_phys@ == old(self).ssdt_phys@.push(phys)
                    &&& final(self).lapic == old(self).lapic && final(self).ioapic == old(self).ioapic
                    &&& final(self).overrides@ == old(self).overrides@
                    &&& final(self).has_8042 == old(self).has_8042 && final(self).dsdt_phys == old(self).dsdt_phys
                } else {
                    *final(self) == *old(self)
                }
            }),
    {
        let len = get_le32(t, 4);
        if len < 36 {
            return;
        }
        let ghost sig = t@.subrange(0, 4);
        if t[0] == 0x46 && t[1] == 0x41 && t[2] == 0x43 && t[3] == 0x50 {
            assert(sig =~= seq![0x46u8, 0x41, 0x43, 0x50]);
            if len >= 111 {
                let boot_flags = get_le16(t, 109);
                self.has_8042 = (boot_flags & 2) != 0;
            }
            let dsdt: u64 = if len >= 44 { get_le32(t, 40) as u64 } else { 0 };
            let x: u64 = if self.revision >= 2 && len >= 148 { get_le64(t, 140) } else { 0 };
            self.dsdt_phys = if x != 0 { x } else { dsdt };
        } else if t[0] == 0x41 && t[1] == 0x50 && t[2] == 0x49 && t[3] == 0x43 {
            assert(sig =~= seq![0x41u8, 0x50, 0x49, 0x43]);
            assert(sig != seq![0x46u8, 0x41, 0x43, 0x50]);
            if len < 44 {
                return;
            }
            self.lapic = get_le32(t, 36) as u64;
            self.walk_madt(t, len);
        } else if t[0] == 0x53 && t[1] == 0x53 && t[2] == 0x44 && t[3] == 0x54 {
            assert(sig =~= seq![0x53u8, 0x53, 0x44, 0x54]);
            assert(sig != seq![0x46u8, 0x41, 0x43, 0x50]);
            assert(sig != seq![0x41u8, 0x50, 0x49, 0x43]);
            self.ssdt_phys.push(phys);
        } else {
            assert(sig != seq![0x46u8, 0x41, 0x43, 0x50] && sig != seq![0x41u8, 0x50, 0x49, 0x43]
                && sig != seq![0x53u8, 0x53, 0x44, 0x54]) by {
                assert(sig[0] == t@[0] && sig[1] == t@[1] && sig[2] == t@[2] && sig[3] == t@[3]);
            }
        }
    }

    fn walk_madt(&mut self, t: &[u8], len: u32)
        requires
            len >= 44,
            t@.len() >= len,
        ensures
            ({
                let w = madt_walk(t@, len, 44, old(self).ioapic);
                &&& final(self).ioapic == w.0
                &&& final(self).overrides@ == old(self).overrides@ + w.1
            }),
            final(self).lapic == old(self).lapic && final(self).has_8042 == old(self).has_8042,
            final(self).dsdt_phys == old(self).dsdt_phys && final(self).ssdt_phys@ == old(self).ssdt_phys@,
            final(self).revision == old(self).revision,
    {
        let ghost start = *self;
        let ghost n0 = start.overrides@.len();
        let mut off: u32 = 44;
        let mut done = false;
        while !done && off < len
            invariant
                t@.len() >= len,
                len >= 44,
                44 <= off,
                n0 == start.overrides@.len(),
                n0 <= self.overrides@.len(),
                self.overrides@.subrange(0, n0 as int) == start.overrides@,
                self.lapic == start.lapic && self.has_8042 == start.has_8042,
                self.dsdt_phys == start.dsdt_phys && self.ssdt_phys@ == start.ssdt_phys@,
                self.revision == start.revision,
                madt_walk(t@, len, 44, start.ioapic) == (madt_walk(t@, len, off as nat, self.ioapic).0,
                    self.overrides@.subrange(n0 as int, self.overrides@.len() as int) + madt_walk(t@, len, off as nat, self.ioapic).1),
                done ==> madt_walk(t@, len, off as nat, self.ioapic) == (self.ioapic, Seq::<InterruptOverride>::empty()),
            decreases (len - off) as int * 2 + (if done { 0int } else { 1int }),
        {
            if off as usize >= t.len() - 1 {
                done = true;
            } else {
                let typ = t[off as usize];
                let elen = t[off as usize + 1] as u32;
                if elen < 2 || elen > len - off {
                    done = true;
                } else {
                    let ghost io0 = self.ioapic;
                    let ghost tail0 = self.overrides@.subrange(n0 as int, self.overrides@.len() as int);
                    let ghost w_next = madt_walk(t@, len, (off + elen) as nat, if typ == 1 && elen >= 12 {
                        if le32(t@, off + 8) == 0 { le32(t@, off + 4) as u64 } else { io0 }
                    } else {
                        io0
                    });
                    if typ == 1 && elen >= 12 {
                        let addr = get_le32(t, off as usize + 4) as u64;
                        let gsi = get_le32(t, off as usize + 8);
                        if gsi == 0 {
                            self.ioapic = addr;
                        }
                    } else if typ == 2 && elen >= 10 {
                        let o = InterruptOverride {
                            source: t[off as usize + 3],
                            global_system_interrupt: get_le32(t, off as usize + 4),
                            flags: get_le16(t, off as usize + 8),
                        };
                        let ghost before = self.overrides@;
                        self.overrides.push(o);
                        proof {
                            assert(self.overrides@.subrange(0, n0 as int) =~= before.subrange(0, n0 as int));
                            assert(self.overrides@.subrange(n0 as int, self.overrides@.len() as int) =~= tail0.push(o));
                            assert(tail0 + (seq![o] + w_next.1) =~= tail0.push(o) + w_next.1);
                        }
                    }
                    off = off + elen;
                }
            }
        }
        assert(madt_walk(t@, len, off as nat, self.ioapic) == (self.ioapic, Seq::<InterruptOverride>::empty()));
        assert(self.overrides@.subrange(n0 as int, self.overrides@.len() as int) + Seq::<InterruptOverride>::empty()
            =~= self.overrides@.subrange(n0 as int, self.overrides@.len() as int));
        assert(self.overrides@ =~= start.overrides@ + self.overrides@.subrange(start.overrides@.len() as int, self.overrides@.len() as int));
    }
}


impl AcpiScan {
    /// The information kept once every table was visited; the OEM id is the root table's
    /// six bytes at offset 10, decoded as UTF-8 (invalid sequences replaced).
    pub fn finish(self, rsdp_address: u64, oem_id: &[u8], cpu_count: usize) -> (res: AcpiInfo)
        ensures
            res.rsdp_address == rsdp_address && res.revision == self.revision,
            vstd::utf8::valid_utf8(oem_id@) ==> res.oem_id@ == vstd::utf8::decode_utf8(oem_id@),
            !vstd::utf8::valid_utf8(oem_id@) ==> res.oem_id@ == spec_utf8_lossy(oem_id@),
            res.local_apic_address == self.lapic && res.ioapic_address == self.ioapic,
            res.cpu_count == cpu_count && res.cpu_ids@.len() == 0,
            res.overrides@ == self.overrides@ && res.has_8042 == self.has_8042,
    {
        AcpiInfo {
            rsdp_address,
            revision: self.revision,
            oem_id: utf8_lossy(oem_id),
            local_apic_address: self.lapic,
            ioapic_address: self.ioapic,
            cpu_count,
            cpu_ids: Vec::new(),
            overrides: self.overrides,
            has_8042: self.has_8042,
        }
    }
}

/// The direct-map address of a physical address below the direct map's offset; other
/// addresses are taken as already mapped.
pub fn phys_to_virt(addr: usize, hhdm: usize) -> (res: usize)
    requires
        addr < hhdm ==> addr + hhdm <= usize::MAX,
    ensures
        res == if addr < hhdm { (addr + hhdm) as usize } else { addr },
{
    if addr < hhdm { addr + hhdm } else { addr }
}

/// The configuration-space address the AML interpreter's PCI accesses go through:
/// enable bit, bus, device and function fields, and the dword-aligned register offset.
pub fn aml_pci_address(bus: u8, dev: u8, func: u8, off: u16) -> (res: u32)
    ensures
        res == 0x8000_0000u32 | ((bus as u32) << 16u32) | ((dev as u32) << 11u32) | ((func as u32) << 8u32) | ((off as u32) & 0xFCu32),
{
    0x8000_0000u32 | ((bus as u32) << 16u32) | ((dev as u32) << 11u32) | ((func as u32) << 8u32) | ((off as u32) & 0xFCu32)
}

} // verus!
