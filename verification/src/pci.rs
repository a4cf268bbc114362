//! PCI configuration space: addressing, decoding of the header registers, the list of
//! devices found and searches in it.
use vstd::prelude::*;

verus! {

/// A PCI function found on a bus.
#[derive(Debug, Clone, Copy, PartialEq, Eq, Structural)]
pub struct PciDevice {
    pub bus: u8,
    pub device: u8,
    pub function: u8,
    pub vendor_id: u16,
    pub device_id: u16,
    pub class_code: u8,
    pub subclass: u8,
    pub prog_if: u8,
    pub revision: u8,
    pub header_type: u8,
}

/// The readable name of a device class and subclass.
pub open spec fn spec_class_name(class_code: u8, subclass: u8) -> Seq<char> {
    if class_code == 0x00 && subclass == 0x00 {
        "Non-VGA unclassified"@
    } else if class_code == 0x01 && subclass == 0x01 {
        "IDE controller"@
    } else if class_code == 0x01 && subclass == 0x06 {
        "SATA controller"@
    } else if class_code == 0x01 && subclass == 0x08 {
        "NVMe controller"@
    } else if class_code == 0x02 && subclass == 0x00 {
        "Ethernet controller"@
    } else if class_code == 0x03 && subclass == 0x00 {
        "VGA controller"@
    } else if class_code == 0x04 && subclass == 0x00 {
        "Video device"@
    } else if class_code == 0x04 && subclass == 0x01 {
        "Audio device"@
    } else if class_code == 0x06 && subclass == 0x00 {
        "Host bridge"@
    } else if class_code == 0x06 && subclass == 0x01 {
        "ISA bridge"@
    } else if class_code == 0x06 && subclass == 0x04 {
        "PCI bridge"@
    } else if class_code == 0x0C && subclass == 0x03 {
        "USB controller"@
    } else if class_code == 0x00 {
        "Unclassified"@
    } else if class_code == 0x01 {
        "Mass storage"@
    } else if class_code == 0x02 {
        "Network"@
    } else if class_code == 0x03 {
        "Display"@
    } else if class_code == 0x04 {
        "Multimedia"@
    } else if class_code == 0x05 {
        "Memory"@
    } else if class_code == 0x06 {
        "Bridge"@
    } else if class_code == 0x07 {
        "Communication"@
    } else if class_code == 0x08 {
        "System peripheral"@
    } else if class_code == 0x09 {
        "Input device"@
    } else if class_code == 0x0A {
        "Docking station"@
    } else if class_code == 0x0B {
        "Processor"@
    } else if class_code == 0x0C {
        "Serial bus"@
    } else if class_code == 0x0D {
        "Wireless"@
    } else if class_code == 0x0E {
        "Intelligent controller"@
    } else if class_code == 0x0F {
        "Satellite"@
    } else if class_code == 0x10 {
        "Encryption"@
    } else if class_code == 0x11 {
        "Signal processing"@
    } else if class_code == 0xFF {
        "Unassigned"@
    } else {
        "Unknown"@
    }
}

fn class_name_of(class_code: u8, subclass: u8) -> (res: &'static str)
    ensures
        res@ == spec_class_name(class_code, subclass),
{
    if class_code == 0x00 && subclass == 0x00 {
        "Non-VGA unclassified"
    } else if class_code == 0x01 && subclass == 0x01 {
        "IDE controller"
    } else if class_code == 0x01 && subclass == 0x06 {
        "SATA controller"
    } else if class_code == 0x01 && subclass == 0x08 {
        "NVMe controller"
    } else if class_code == 0x02 && subclass == 0x00 {
        "Ethernet controller"
    } else if class_code == 0x03 && subclass == 0x00 {
        "VGA controller"
    } else if class_code == 0x04 && subclass == 0x00 {
        "Video device"
    } else if class_code == 0x04 && subclass == 0x01 {
        "Audio device"
    } else if class_code == 0x06 && subclass == 0x00 {
        "Host bridge"
    } else if class_code == 0x06 && subclass == 0x01 {
        "ISA bridge"
    } else if class_code == 0x06 && subclass == 0x04 {
        "PCI bridge"
    } else if class_code == 0x0C && subclass == 0x03 {
        "USB controller"
    } else if class_code == 0x00 {
        "Unclassified"
    } else if class_code == 0x01 {
        "Mass storage"
    } else if class_code == 0x02 {
        "Network"
    } else if class_code == 0x03 {
        "Display"
    } else if class_code == 0x04 {
        "Multimedia"
    } else if class_code == 0x05 {
        "Memory"
    } else if class_code == 0x06 {
        "Bridge"
    } else if class_code == 0x07 {
        "Communication"
    } else if class_code == 0x08 {
        "System peripheral"
    } else if class_code == 0x09 {
        "Input device"
    } else if class_code == 0x0A {
        "Docking station"
    } else if class_code == 0x0B {
        "Processor"
    } else if class_code == 0x0C {
        "Serial bus"
    } else if class_code == 0x0D {
        "Wireless"
    } else if class_code == 0x0E {
        "Intelligent controller"
    } else if class_code == 0x0F {
        "Satellite"
    } else if class_code == 0x10 {
        "Encryption"
    } else if class_code == 0x11 {
        "Signal processing"
    } else if class_code == 0xFF {
        "Unassigned"
    } else {
        "Unknown"
    }
}

/// The readable name of a vendor id.
pub open spec fn spec_vendor_name(vendor_id: u16) -> Seq<char> {
    if vendor_id == 0x1234 {
        "QEMU"@
    } else if vendor_id == 0x8086 {
        "Intel"@
    } else if vendor_id == 0x1022 {
        "AMD"@
    } else if vendor_id == 0x10DE {
        "NVIDIA"@
    } else if vendor_id == 0x1002 {
        "AMD/ATI"@
    } else if vendor_id == 0x14E4 {
        "Broadcom"@
    } else if vendor_id == 0x168C {
        "Qualcomm Atheros"@
    } else if vendor_id == 0x10EC {
        "Realtek"@
    } else if vendor_id == 0x1B21 {
        "ASMedia"@
    } else if vendor_id == 0x1912 {
        "Renesas"@
    } else if vendor_id == 0x1AF4 {
        "Red Hat (virtio)"@
    } else if vendor_id == 0x15AD {
        "VMware"@
    } else if vendor_id == 0x80EE {
        "VirtualBox"@
    } else {
        "Unknown"@
    }
}

fn vendor_name_of(vendor_id: u16) -> (res: &'static str)
    ensures
        res@ == spec_vendor_name(vendor_id),
{
    if vendor_id == 0x1234 {
        "QEMU"
    } else if vendor_id == 0x8086 {
        "Intel"
    } else if vendor_id == 0x1022 {
        "AMD"
    } else if vendor_id == 0x10DE {
        "NVIDIA"
    } else if vendor_id == 0x1002 {
        "AMD/ATI"
    } else if vendor_id == 0x14E4 {
        "Broadcom"
    } else if vendor_id == 0x168C {
        "Qualcomm Atheros"
    } else if vendor_id == 0x10EC {
        "Realtek"
    } else if vendor_id == 0x1B21 {
        "ASMedia"
    } else if vendor_id == 0x1912 {
        "Renesas"
    } else if vendor_id == 0x1AF4 {
        "Red Hat (virtio)"
    } else if vendor_id == 0x15AD {
        "VMware"
    } else if vendor_id == 0x80EE {
        "VirtualBox"
    } else {
        "Unknown"
    }
}

impl PciDevice {
    /// A readable name for the device's class.
    pub fn class_name(&self) -> (res: &'static str)
        ensures
            res@ == spec_class_name(self.class_code, self.subclass),
    {
        class_name_of(self.class_code, self.subclass)
    }

    /// A readable name for the device's vendor.
    pub fn vendor_name(&self) -> (res: &'static str)
        ensures
            res@ == spec_vendor_name(self.vendor_id),
    {
        vendor_name_of(self.vendor_id)
    }
}

/// The value written to the address port to reach a configuration register: the enable
/// bit, bus, device, function and the register offset rounded down to a multiple of four.
pub open spec fn spec_config_address(bus: u8, device: u8, function: u8, offset: u8) -> u32 {
    (0x8000_0000 + bus * 0x1_0000 + (device % 32) * 0x800 + (function % 8) * 0x100 + (offset / 4) * 4) as u32
}

/// The configuration address of a register.
pub fn pci_config_address(bus: u8, device: u8, function: u8, offset: u8) -> (res: u32)
    ensures
        res == spec_config_address(bus, device, function, offset),
{
    0x8000_0000u32 + (bus as u32) * 0x1_0000 + ((device % 32) as u32) * 0x800 + ((function % 8) as u32) * 0x100
        + ((offset / 4) as u32) * 4
}

/// The byte of a configuration dword that `offset` selects.
pub open spec fn spec_config_byte(value: u32, offset: u8) -> u8 {
    ((value as nat / pow256((offset % 4) as nat)) % 256) as u8
}

/// The 16-bit half of a configuration dword that `offset` selects.
pub open spec fn spec_config_word(value: u32, offset: u8) -> u16 {
    (if (offset / 2) % 2 == 1 { value / 0x1_0000 } else { value % 0x1_0000 }) as u16
}

pub open spec fn pow256(k: nat) -> nat
    decreases k,
{
    if k == 0 { 1 } else { 256 * pow256((k - 1) as nat) }
}

/// The byte at `offset` of configuration space, given the dword read at `offset & 0xFC`.
pub fn pci_config_read_byte(value: u32, offset: u8) -> (res: u8)
    ensures
        res == spec_config_byte(value, offset),
{
    proof {
        reveal_with_fuel(pow256, 4);
        assert(pow256(0) == 1 && pow256(1) == 0x100 && pow256(2) == 0x1_0000 && pow256(3) == 0x100_0000);
    }
    let shift = offset % 4;
    let v = if shift == 0 { value } else if shift == 1 { value / 0x100 } else if shift == 2 { value / 0x1_0000 } else { value / 0x100_0000 };
    (v % 256) as u8
}

/// The 16-bit value at `offset` of configuration space, given the dword read at
/// `offset & 0xFC`.
pub fn pci_config_read_word(value: u32, offset: u8) -> (res: u16)
    ensures
        res == spec_config_word(value, offset),
{
    if (offset / 2) % 2 == 1 { (value / 0x1_0000) as u16 } else { (value % 0x1_0000) as u16 }
}

/// A device described by the dwords at offsets 0, 8 and 0x0C of its configuration space;
/// `None` when the vendor id reads as `0xFFFF` (no device).
pub open spec fn spec_device_from_config(bus: u8, device: u8, function: u8, reg0: u32, reg8: u32, reg_c: u32) -> Option<PciDevice> {
    if reg0 % 0x1_0000 == 0xFFFF {
        None
    } else {
        Some(PciDevice {
            bus,
            device,
            function,
            vendor_id: (reg0 % 0x1_0000) as u16,
            device_id: (reg0 / 0x1_0000) as u16,
            class_code: (reg8 / 0x100_0000) as u8,
            subclass: ((reg8 / 0x1_0000) % 256) as u8,
            prog_if: ((reg8 / 0x100) % 256) as u8,
            revision: (reg8 % 256) as u8,
            header_type: ((reg_c / 0x1_0000) % 256) as u8,
        })
    }
}

/// Decodes a function's identity from its configuration registers.
pub fn device_from_config(bus: u8, device: u8, function: u8, reg0: u32, reg8: u32, reg_c: u32) -> (res: Option<PciDevice>)
    ensures
        res == spec_device_from_config(bus, device, function, reg0, reg8, reg_c),
{
    let vendor_id = (reg0 % 0x1_0000) as u16;
    if vendor_id == 0xFFFF {
        return None;
    }
    Some(PciDevice {
        bus,
        device,
        function,
        vendor_id,
        device_id: (reg0 / 0x1_0000) as u16,
        class_code: (reg8 / 0x100_0000) as u8,
        subclass: ((reg8 / 0x1_0000) % 256) as u8,
        prog_if: ((reg8 / 0x100) % 256) as u8,
        revision: (reg8 % 256) as u8,
        header_type: ((reg_c / 0x1_0000) % 256) as u8,
    })
}

/// The three configuration dwords of one function that identify it: those at offsets
/// 0 (vendor and device ids), 8 (class, subclass, programming interface, revision) and
/// 0x0C (with the header type in bits 16..=23).
pub open spec fn is_present(c: (u32, u32, u32)) -> bool {
    c.0 % 0x1_0000 != 0xFFFF
}

/// Whether the header type says the device has several functions (bit 7).
pub open spec fn is_multifunction(c: (u32, u32, u32)) -> bool {
    (c.2 / 0x1_0000) % 256 >= 0x80
}

/// The device that a present function's dwords describe.
pub open spec fn config_device(bus: u8, device: u8, function: u8, c: (u32, u32, u32)) -> PciDevice {
    PciDevice {
        bus,
        device,
        function,
        vendor_id: (c.0 % 0x1_0000) as u16,
        device_id: (c.0 / 0x1_0000) as u16,
        class_code: (c.1 / 0x100_0000) as u8,
        subclass: ((c.1 / 0x1_0000) % 256) as u8,
        prog_if: ((c.1 / 0x100) % 256) as u8,
        revision: (c.1 % 256) as u8,
        header_type: ((c.2 / 0x1_0000) % 256) as u8,
    }
}

/// The present functions among the first `n`, in order.
pub open spec fn functions_from(bus: u8, device: u8, funcs: Seq<(u32, u32, u32)>, n: nat) -> Seq<PciDevice>
    decreases n,
{
    if n == 0 {
        Seq::empty()
    } else {
        let prev = functions_from(bus, device, funcs, (n - 1) as nat);
        if is_present(funcs[n - 1]) { prev.push(config_device(bus, device, (n - 1) as u8, funcs[n - 1])) } else { prev }
    }
}

/// The functions found on a device slot: none when function 0 is absent; function 0
/// alone unless its header type marks a multi-function device, in which case every
/// present function of the eight.
pub open spec fn spec_scan_device(bus: u8, device: u8, funcs: Seq<(u32, u32, u32)>) -> Seq<PciDevice> {
    if !is_present(funcs[0]) {
        Seq::empty()
    } else if is_multifunction(funcs[0]) {
        functions_from(bus, device, funcs, 8)
    } else {
        seq![config_device(bus, device, 0, funcs[0])]
    }
}

/// The devices of a slot, given the identifying dwords of its eight functions.
pub fn scan_device(bus: u8, device: u8, funcs: &[(u32, u32, u32)]) -> (res: Vec<PciDevice>)
    requires
        funcs@.len() == 8,
    ensures
        res@ == spec_scan_device(bus, device, funcs@),
{
    let mut out: Vec<PciDevice> = Vec::new();
    let (r0, r8, rc) = funcs[0];
    if r0 % 0x1_0000 == 0xFFFF {
        return out;
    }
    if (rc / 0x1_0000) % 256 < 0x80 {
        match device_from_config(bus, device, 0, r0, r8, rc) {
            Some(d) => out.push(d),
            None => {},
        }
        assert(out@ =~= seq![config_device(bus, device, 0, funcs@[0])]);
        return out;
    }
    let mut f: usize = 0;
    while f < 8
        invariant
            funcs@.len() == 8,
            f <= 8,
            out@ == functions_from(bus, device, funcs@, f as nat),
        decreases 8 - f,
    {
        let (a, b, c) = funcs[f];
        match device_from_config(bus, device, f as u8, a, b, c) {
            Some(d) => out.push(d),
            None => {},
        }
        f = f + 1;
    }
    out
}

/// The devices of a bus in slot order.
pub open spec fn bus_devices(bus: u8, slots: Seq<Seq<(u32, u32, u32)>>, n: nat) -> Seq<PciDevice>
    decreases n,
{
    if n == 0 {
        Seq::empty()
    } else {
        bus_devices(bus, slots, (n - 1) as nat) + spec_scan_device(bus, (n - 1) as u8, slots[n - 1])
    }
}

/// The devices of a bus, given the identifying dwords of the eight functions of each of
/// its 32 slots.
pub fn scan_bus(bus: u8, slots: &Vec<Vec<(u32, u32, u32)>>) -> (res: Vec<PciDevice>)
    requires
        slots@.len() == 32,
        forall|d: int| 0 <= d < 32 ==> (#[trigger] slots@[d])@.len() == 8,
    ensures
        res@ == bus_devices(bus, Seq::new(32, |d: int| slots@[d]@), 32),
{
    let ghost view = Seq::new(32, |d: int| slots@[d]@);
    let mut out: Vec<PciDevice> = Vec::new();
    let mut d: usize = 0;
    while d < 32
        invariant
            slots@.len() == 32,
            forall|k: int| 0 <= k < 32 ==> (#[trigger] slots@[k])@.len() == 8,
            view == Seq::new(32, |k: int| slots@[k]@),
            d <= 32,
            out@ == bus_devices(bus, view, d as nat),
        decreases 32 - d,
    {
        let mut found = scan_device(bus, d as u8, slots[d].as_slice());
        assert(view[d as int] == slots@[d as int]@);
        out.append(&mut found);
        d = d + 1;
    }
    out
}

/// The buses scanned at start-up: bus 0, then, when the host bridge (bus 0, slot 0) is
/// a multi-function device, the bus numbered after each of its other present functions.
pub open spec fn spec_buses_to_scan(host: Seq<(u32, u32, u32)>) -> Seq<u8> {
    seq![0u8] + (if is_multifunction(host[0]) {
        Seq::new(7, |i: int| (i + 1) as u8).filter(|b: u8| is_present(host[b as int]))
    } else {
        Seq::empty()
    })
}

/// Which buses to scan, given the identifying dwords of the host bridge's functions.
pub fn buses_to_scan(host: &[(u32, u32, u32)]) -> (res: Vec<u8>)
    requires
        host@.len() == 8,
    ensures
        res@ == spec_buses_to_scan(host@),
{
    let mut out: Vec<u8> = Vec::new();
    out.push(0);
    let (_, _, rc) = host[0];
    let ghost all = Seq::new(7, |i: int| (i + 1) as u8);
    let ghost keep = |b: u8| is_present(host@[b as int]);
    if (rc / 0x1_0000) % 256 >= 0x80 {
        let mut f: usize = 1;
        while f < 8
            invariant
                host@.len() == 8,
                1 <= f <= 8,
                all == Seq::new(7, |i: int| (i + 1) as u8),
                keep == (|b: u8| is_present(host@[b as int])),
                out@ == seq![0u8] + all.subrange(0, f - 1).filter(keep),
            decreases 8 - f,
        {
            let (r0, _, _) = host[f];
            proof {
                let pre = all.subrange(0, f - 1);
                let nxt = all.subrange(0, f as int);
                assert(nxt.drop_last() =~= pre);
                assert(nxt.last() == f as u8);
                pre.lemma_filter_push(f as u8, keep);
                assert(nxt =~= pre.push(f as u8));
            }
            if r0 % 0x1_0000 != 0xFFFF {
                out.push(f as u8);
            }
            f = f + 1;
        }
        assert(all.subrange(0, 7) =~= all);
    } else {
        assert(out@ =~= seq![0u8] + Seq::<u8>::empty());
    }
    out
}

/// A copy of the list of devices.
pub fn devices(list: &Vec<PciDevice>) -> (res: Vec<PciDevice>)
    ensures
        res@ == list@,
{
    let mut out: Vec<PciDevice> = Vec::new();
    let mut i: usize = 0;
    while i < list.len()
        invariant
            i <= list@.len(),
            out@ == list@.subrange(0, i as int),
        decreases list@.len() - i,
    {
        out.push(list[i]);
        i = i + 1;
        assert(out@ =~= list@.subrange(0, i as int));
    }
    assert(list@.subrange(0, list@.len() as int) =~= list@);
    out
}

pub fn device_count(list: &Vec<PciDevice>) -> (res: usize)
    ensures
        res == list@.len(),
{
    list.len()
}

/// The RTL8822CE wireless chip (Realtek, device `0xC822` or `0xC82C`).
pub open spec fn is_wifi(d: PciDevice) -> bool {
    d.vendor_id == 0x10EC && (d.device_id == 0xC822 || d.device_id == 0xC82C)
}

/// The first device of the list that is the wireless chip.
pub fn find_wifi_device(list: &Vec<PciDevice>) -> (res: Option<PciDevice>)
    ensures
        res matches Some(d) ==> exists|i: int| 0 <= i < list@.len() && list@[i] == d && is_wifi(d)
            && forall|j: int| 0 <= j < i ==> !is_wifi(#[trigger] list@[j]),
        res is None ==> forall|j: int| 0 <= j < list@.len() ==> !is_wifi(#[trigger] list@[j]),
{
    let mut i: usize = 0;
    while i < list.len()
        invariant
            i <= list@.len(),
            forall|j: int| 0 <= j < i ==> !is_wifi(#[trigger] list@[j]),
        decreases list@.len() - i,
    {
        let dev = list[i];
        if dev.vendor_id == 0x10EC && dev.device_id == 0xC822 {
            return Some(dev);
        }
        if dev.vendor_id == 0x10EC && dev.device_id == 0xC82C {
            return Some(dev);
        }
        i = i + 1;
    }
    None
}

/// The first device of the list with the given vendor and device ids.
pub fn find_device(list: &Vec<PciDevice>, vendor_id: u16, device_id: u16) -> (res: Option<PciDevice>)
    ensures
        res matches Some(d) ==> exists|i: int| 0 <= i < list@.len() && list@[i] == d && d.vendor_id == vendor_id
            && d.device_id == device_id
            && forall|j: int| 0 <= j < i ==> !(#[trigger] list@[j].vendor_id == vendor_id && list@[j].device_id == device_id),
        res is None ==> forall|j: int| 0 <= j < list@.len() ==> !(#[trigger] list@[j].vendor_id == vendor_id
            && list@[j].device_id == device_id),
{
    let mut i: usize = 0;
    while i < list.len()
        invariant
            i <= list@.len(),
            forall|j: int| 0 <= j < i ==> !(#[trigger] list@[j].vendor_id == vendor_id && list@[j].device_id == device_id),
        decreases list@.len() - i,
    {
        let dev = list[i];
        if dev.vendor_id == vendor_id && dev.device_id == device_id {
            return Some(dev);
        }
        i = i + 1;
    }
    None
}

/// A USB controller (class `0x0C`, subclass `0x03`) with the given programming interface.
pub open spec fn is_usb_controller(d: PciDevice, prog_if: u8) -> bool {
    d.class_code == 0x0C && d.subclass == 0x03 && d.prog_if == prog_if
}

/// The first USB controller of the list with the given programming interface
/// (`0x30` is xHCI).
pub fn find_usb_controller(list: &Vec<PciDevice>, prog_if: u8) -> (res: Option<PciDevice>)
    ensures
        res matches Some(d) ==> exists|i: int| 0 <= i < list@.len() && list@[i] == d && is_usb_controller(d, prog_if)
            && forall|j: int| 0 <= j < i ==> !is_usb_controller(#[trigger] list@[j], prog_if),
        res is None ==> forall|j: int| 0 <= j < list@.len() ==> !is_usb_controller(#[trigger] list@[j], prog_if),
{
    let mut i: usize = 0;
    while i < list.len()
        invariant
            i <= list@.len(),
            forall|j: int| 0 <= j < i ==> !is_usb_controller(#[trigger] list@[j], prog_if),
        decreases list@.len() - i,
    {
        let dev = list[i];
        if dev.class_code == 0x0C && dev.subclass == 0x03 && dev.prog_if == prog_if {
            return Some(dev);
        }
        i = i + 1;
    }
    None
}

/// The (device, function) pairs on `bus` whose command register is to get memory space,
/// I/O space and bus mastering enabled, in list order.
pub open spec fn bridge_targets(list: Seq<PciDevice>, bus: u8) -> Seq<(u8, u8)>
    decreases list.len(),
{
    if list.len() == 0 {
        Seq::empty()
    } else {
        let prev = bridge_targets(list.drop_last(), bus);
        if list.last().bus == bus { prev.push((list.last().device, list.last().function)) } else { prev }
    }
}

/// Plans the bridge-window setup of a bus: every device on it gets its command register
/// ORed with `0x07`; returns the devices to update.
pub fn pci_setup_bridge_window(list: &Vec<PciDevice>, bus: u8) -> (res: Vec<(u8, u8)>)
    ensures
        res@ == bridge_targets(list@, bus),
{
    let mut out: Vec<(u8, u8)> = Vec::new();
    let mut i: usize = 0;
    while i < list.len()
        invariant
            i <= list@.len(),
            out@ == bridge_targets(list@.subrange(0, i as int), bus),
        decreases list@.len() - i,
    {
        let dev = list[i];
        proof { assert(list@.subrange(0, i + 1).drop_last() =~= list@.subrange(0, i as int)); }
        if dev.bus == bus {
            out.push((dev.device, dev.function));
        }
        i = i + 1;
    }
    assert(list@.subrange(0, list@.len() as int) =~= list@);
    out
}

/// The command register with memory space, I/O space and bus mastering enabled.
pub fn command_with_enables(cmd: u32) -> (res: u32)
    ensures
        res == cmd | 7,
        res % 8 == 7,
        res / 8 == cmd / 8,
{
    assert((cmd | 7) % 8 == 7 && (cmd | 7) / 8 == cmd / 8) by (bit_vector);
    cmd | 7
}

} // verus!
