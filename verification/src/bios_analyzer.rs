//! Diagnosis of the firmware settings that keep a PCIe WiFi card (the RTL8822CE in
//! particular) from working: what the configuration registers of the card show, and what
//! to change in the BIOS setup.
use vstd::prelude::*;
use crate::pci::PciDevice;
use crate::text::{contains_str, chars_of, dec, hex_pad, push_dec, push_hex_pad, push_str, seq_contains, string_of};

verus! {

/// The findings: firmware identity, what works, what does not, and what to do.
pub struct BiosAnalysis {
    pub vendor: String,
    pub version: String,
    pub date: String,
    pub features: Vec<String>,
    pub issues: Vec<String>,
    pub recommendations: Vec<String>,
}

/// The analyzer.
pub struct BiosAnalyzer;

/// The configuration registers of the WiFi card that the analysis reads.
pub struct WifiRegisters {
    pub device: PciDevice,
    /// Register 0x10.
    pub bar0: u32,
    /// Register 0x14.
    pub bar1: u32,
    /// PMCSR (capability 0x01, offset 4), when the card has that capability.
    pub pmcsr: Option<u32>,
    /// Link control (capability 0x10, offset 0x10), when the card has that capability.
    pub link_ctl: Option<u32>,
    /// Register 0x04.
    pub command: u32,
    /// Register 0x08, read again by the chip-specific checks.
    pub class_rev: u32,
    /// Register 0x10, read again by the chip-specific checks.
    pub bar0_again: u32,
}

/// A device of the PCI list and its PMCSR, when it has the power-management capability.
pub struct DevicePower {
    pub device: PciDevice,
    pub pmcsr: Option<u32>,
}

/// What the analysis is given: the ACPI OEM id, the WiFi card's registers when there is
/// a card, and the devices of the PCI scan.
pub struct BiosInputs {
    pub acpi_oem_id: Option<String>,
    pub wifi: Option<WifiRegisters>,
    pub devices: Vec<DevicePower>,
}

pub open spec fn strings_view(v: Seq<String>) -> Seq<Seq<char>> {
    Seq::new(v.len(), |i: int| v[i]@)
}

fn push_line(v: &mut Vec<String>, s: String)
    ensures
        strings_view(final(v)@) == strings_view(old(v)@).push(s@),
{
    let ghost t = s@;
    v.push(s);
    assert(strings_view(v@) =~= strings_view(old(v)@).push(t));
}

fn push_text(v: &mut Vec<String>, s: &str)
    ensures
        strings_view(final(v)@) == strings_view(old(v)@).push(s@),
{
    push_line(v, string_of(s));
}

/// `text` followed by `0x` and eight hexadecimal digits of `n`, then `tail`.
fn hex_line(text: &str, n: u32, tail: &str) -> (res: String)
    ensures
        res@ == text@ + "0x"@ + hex_pad(n as nat, 8) + tail@,
{
    let mut s = string_of(text);
    push_str(&mut s, "0x");
    push_hex_pad(&mut s, n as u64, 8);
    push_str(&mut s, tail);
    s
}

/// What one check adds: (features, issues).
pub open spec fn finding(ok: bool, feature: Seq<char>, issue: Seq<char>) -> (Seq<Seq<char>>, Seq<Seq<char>>) {
    if ok { (seq![feature], Seq::empty()) } else { (Seq::empty(), seq![issue]) }
}

pub open spec fn no_finding() -> (Seq<Seq<char>>, Seq<Seq<char>>) {
    (Seq::empty(), Seq::empty())
}

/// BAR0: unassigned, in I/O space, or memory.
pub open spec fn bar0_finding(bar0: u32) -> (Seq<Seq<char>>, Seq<Seq<char>>) {
    if bar0 == 0 {
        finding(false, Seq::empty(), "CRITICAL: BAR0 = 0 - BIOS no asign\u{f3} memoria MMIO"@)
    } else {
        finding(bar0 & 1 == 0, "BAR0 asignado a Memory: 0x"@ + hex_pad((bar0 & 0xFFFF_FFF0) as nat, 8),
            "BAR0 asignado a I/O space: 0x"@ + hex_pad(bar0 as nat, 8) + " (deber\u{ed}a ser Memory)"@)
    }
}

pub open spec fn bar1_finding(bar1: u32) -> (Seq<Seq<char>>, Seq<Seq<char>>) {
    finding(bar1 != 0, "BAR1 Memory asignado: 0x"@ + hex_pad((bar1 & 0xFFFF_FFF0) as nat, 8),
        "CRITICAL: BAR1 = 0 - Memoria MMIO principal no asignada"@)
}

pub open spec fn pm_finding(pmcsr: Option<u32>) -> (Seq<Seq<char>>, Seq<Seq<char>>) {
    match pmcsr {
        Some(p) => finding(p & 3 == 0, "Power State: D0 (correcto)"@,
            "Power State: D"@ + dec((p & 3) as nat) + " (deber\u{ed}a ser D0)"@),
        None => no_finding(),
    }
}

pub open spec fn aspm_finding(link_ctl: Option<u32>) -> (Seq<Seq<char>>, Seq<Seq<char>>) {
    match link_ctl {
        Some(l) => finding(l & 3 == 0, "ASPM: Disabled (bueno para WiFi)"@, "ASPM: Enabled - Puede causar problemas con WiFi"@),
        None => no_finding(),
    }
}

pub open spec fn mem_finding(command: u32) -> (Seq<Seq<char>>, Seq<Seq<char>>) {
    finding((command & 0xFFFF) & 2 != 0, "Memory Space: Enabled"@,
        "CRITICAL: Memory Space Disabled - El dispositivo no puede acceder a memoria"@)
}

pub open spec fn master_finding(command: u32) -> (Seq<Seq<char>>, Seq<Seq<char>>) {
    finding((command & 0xFFFF) & 4 != 0, "Bus Master: Enabled"@,
        "CRITICAL: Bus Master Disabled - El dispositivo no puede iniciar transferencias"@)
}

/// The findings on the card's configuration, check after check: (features, issues).
pub open spec fn pci_findings(w: Option<WifiRegisters>) -> (Seq<Seq<char>>, Seq<Seq<char>>) {
    match w {
        None => (Seq::empty(), seq!["WiFi device not found in PCI scan"@]),
        Some(w) => {
            let a = bar0_finding(w.bar0);
            let b = bar1_finding(w.bar1);
            let c = pm_finding(w.pmcsr);
            let d = aspm_finding(w.link_ctl);
            let e = mem_finding(w.command);
            let f = master_finding(w.command);
            (a.0 + b.0 + c.0 + d.0 + e.0 + f.0, a.1 + b.1 + c.1 + d.1 + e.1 + f.1)
        },
    }
}

/// Records one check's outcome.
fn record(a: &mut BiosAnalysis, ok: bool, feature: String, issue: String)
    ensures
        strings_view(final(a).features@) == strings_view(old(a).features@) + finding(ok, feature@, issue@).0,
        strings_view(final(a).issues@) == strings_view(old(a).issues@) + finding(ok, feature@, issue@).1,
        final(a).recommendations@ == old(a).recommendations@,
        final(a).vendor@ == old(a).vendor@ && final(a).version@ == old(a).version@ && final(a).date@ == old(a).date@,
{
    let ghost f0 = strings_view(a.features@);
    let ghost i0 = strings_view(a.issues@);
    let ghost fv = feature@;
    let ghost iv = issue@;
    if ok {
        push_line(&mut a.features, feature);
    } else {
        push_line(&mut a.issues, issue);
    }
    assert(strings_view(a.features@) =~= f0 + finding(ok, fv, iv).0);
    assert(strings_view(a.issues@) =~= i0 + finding(ok, fv, iv).1);
}


fn check_bar0(a: &mut BiosAnalysis, bar0: u32)
    ensures
        strings_view(final(a).features@) == strings_view(old(a).features@) + bar0_finding(bar0).0,
        strings_view(final(a).issues@) == strings_view(old(a).issues@) + bar0_finding(bar0).1,
        final(a).recommendations@ == old(a).recommendations@,
        final(a).vendor@ == old(a).vendor@ && final(a).version@ == old(a).version@ && final(a).date@ == old(a).date@,
{
    if bar0 == 0 {
        record(a, false, String::new(), string_of("CRITICAL: BAR0 = 0 - BIOS no asign\u{f3} memoria MMIO"));
    } else {
        let feat = hex_line("BAR0 asignado a Memory: ", bar0 & 0xFFFF_FFF0, "");
        let iss = hex_line("BAR0 asignado a I/O space: ", bar0, " (deber\u{ed}a ser Memory)");
        proof {
            reveal_strlit("BAR0 asignado a Memory: 0x");
            reveal_strlit("BAR0 asignado a Memory: ");
            reveal_strlit("BAR0 asignado a I/O space: 0x");
            reveal_strlit("BAR0 asignado a I/O space: ");
            reveal_strlit("0x");
            reveal_strlit("");
            assert(feat@ =~= "BAR0 asignado a Memory: 0x"@ + hex_pad((bar0 & 0xFFFF_FFF0) as nat, 8));
            assert(iss@ =~= "BAR0 asignado a I/O space: 0x"@ + hex_pad(bar0 as nat, 8) + " (deber\u{ed}a ser Memory)"@);
        }
        record(a, bar0 & 1 == 0, feat, iss);
    }
}

fn check_bar1(a: &mut BiosAnalysis, bar1: u32)
    ensures
        strings_view(final(a).features@) == strings_view(old(a).features@) + bar1_finding(bar1).0,
        strings_view(final(a).issues@) == strings_view(old(a).issues@) + bar1_finding(bar1).1,
        final(a).recommendations@ == old(a).recommendations@,
        final(a).vendor@ == old(a).vendor@ && final(a).version@ == old(a).version@ && final(a).date@ == old(a).date@,
{
    let feat = hex_line("BAR1 Memory asignado: ", bar1 & 0xFFFF_FFF0, "");
    proof {
        reveal_strlit("BAR1 Memory asignado: 0x");
        reveal_strlit("BAR1 Memory asignado: ");
        reveal_strlit("0x");
        reveal_strlit("");
        assert(feat@ =~= "BAR1 Memory asignado: 0x"@ + hex_pad((bar1 & 0xFFFF_FFF0) as nat, 8));
    }
    record(a, bar1 != 0, feat, string_of("CRITICAL: BAR1 = 0 - Memoria MMIO principal no asignada"));
}


fn check_pm(a: &mut BiosAnalysis, pmcsr: Option<u32>)
    ensures
        strings_view(final(a).features@) == strings_view(old(a).features@) + pm_finding(pmcsr).0,
        strings_view(final(a).issues@) == strings_view(old(a).issues@) + pm_finding(pmcsr).1,
        final(a).recommendations@ == old(a).recommendations@,
        final(a).vendor@ == old(a).vendor@ && final(a).version@ == old(a).version@ && final(a).date@ == old(a).date@,
{
    if let Some(p) = pmcsr {
        let mut s = string_of("Power State: D");
        push_dec(&mut s, (p & 3) as u64);
        push_str(&mut s, " (deber\u{ed}a ser D0)");
        record(a, p & 3 == 0, string_of("Power State: D0 (correcto)"), s);
    } else {
        assert(strings_view(a.features@) + Seq::<Seq<char>>::empty() =~= strings_view(a.features@));
        assert(strings_view(a.issues@) + Seq::<Seq<char>>::empty() =~= strings_view(a.issues@));
    }
}

fn check_aspm(a: &mut BiosAnalysis, link_ctl: Option<u32>)
    ensures
        strings_view(final(a).features@) == strings_view(old(a).features@) + aspm_finding(link_ctl).0,
        strings_view(final(a).issues@) == strings_view(old(a).issues@) + aspm_finding(link_ctl).1,
        final(a).recommendations@ == old(a).recommendations@,
        final(a).vendor@ == old(a).vendor@ && final(a).version@ == old(a).version@ && final(a).date@ == old(a).date@,
{
    if let Some(l) = link_ctl {
        record(a, l & 3 == 0, string_of("ASPM: Disabled (bueno para WiFi)"),
            string_of("ASPM: Enabled - Puede causar problemas con WiFi"));
    } else {
        assert(strings_view(a.features@) + Seq::<Seq<char>>::empty() =~= strings_view(a.features@));
        assert(strings_view(a.issues@) + Seq::<Seq<char>>::empty() =~= strings_view(a.issues@));
    }
}

proof fn lemma_concat6<T>(s0: Seq<T>, a: Seq<T>, b: Seq<T>, c: Seq<T>, d: Seq<T>, e: Seq<T>, f: Seq<T>)
    ensures
        s0 + a + b + c + d + e + f == s0 + (a + b + c + d + e + f),
{
    assert(s0 + a + b + c + d + e + f =~= s0 + (a + b + c + d + e + f));
}

/// The network controllers (class 0x02, subclass 0x80) of the first `n` devices that are
/// not in D0.
pub open spec fn power_issues(devs: Seq<DevicePower>, n: nat) -> Seq<Seq<char>>
    decreases n,
{
    if n == 0 || n > devs.len() {
        Seq::empty()
    } else {
        let prev = power_issues(devs, (n - 1) as nat);
        let d = devs[n - 1];
        if d.device.class_code == 0x02 && d.device.subclass == 0x80 && d.pmcsr is Some && d.pmcsr->0 & 3 > 0 {
            prev.push("Network device in D"@ + dec((d.pmcsr->0 & 3) as nat) + " state: "@ + hex_pad(d.device.bus as nat, 2)
                + ":"@ + hex_pad(d.device.device as nat, 2) + "."@ + dec(d.device.function as nat))
        } else {
            prev
        }
    }
}

/// Whether the card is the RTL8822CE.
pub open spec fn is_rtl8822ce(w: WifiRegisters) -> bool {
    w.device.vendor_id == 0x10EC && w.device.device_id == 0xC822
}

/// The chip-specific findings: (features, issues, recommendations).
pub open spec fn chip_findings(w: Option<WifiRegisters>) -> (Seq<Seq<char>>, Seq<Seq<char>>, Seq<Seq<char>>) {
    match w {
        Some(w) => if is_rtl8822ce(w) {
            let f = seq!["RTL8822CE detected - HP Laptop 15s-eq2xxx compatible"@,
                "Chip Revision: 0x"@ + hex_pad((w.class_rev & 0xFF) as nat, 2)];
            if w.bar0_again == 0 {
                (f, seq!["CHIP LOCKED: BAR0=0 indicates BIOS power management lock"@],
                    seq!["Configure BIOS: Disable PCIe ASPM, Set PCIe Gen 2, Disable Secure Boot"@])
            } else {
                (f, Seq::empty(), Seq::empty())
            }
        } else {
            (Seq::empty(), Seq::empty(), Seq::empty())
        },
        None => (Seq::empty(), Seq::empty(), Seq::empty()),
    }
}

/// Whether one of the issues mentions `needle`.
pub open spec fn mentions(issues: Seq<Seq<char>>, needle: Seq<char>) -> bool {
    exists|k: int| 0 <= k < issues.len() && seq_contains(#[trigger] issues[k], needle)
}

/// The closing recommendations, given the issues found.
pub open spec fn closing_advice(issues: Seq<Seq<char>>) -> Seq<Seq<char>> {
    (if mentions(issues, "BAR0 = 0"@) {
        seq!["BIOS FIX REQUIRED: Enter BIOS setup (F10) and configure:"@,
            "  - Power Management \u{2192} PCIe Power Management: Disabled"@,
            "  - System Configuration \u{2192} PCIe Speed: Gen 2"@,
            "  - Security \u{2192} Secure Boot: Disabled"@,
            "  - Advanced \u{2192} Built-in Device Options \u{2192} Wireless Radio: Enabled"@]
    } else {
        Seq::empty()
    }) + (if mentions(issues, "ASPM"@) {
        seq!["BIOS: Disable PCIe ASPM (Active State Power Management)"@]
    } else {
        Seq::empty()
    }) + (if mentions(issues, "Power State"@) {
        seq!["BIOS: Ensure device is in D0 power state"@]
    } else {
        Seq::empty()
    }) + seq!["After BIOS changes: Cold boot (power off completely)"@, "Test with: wifi diag  (in MesaOS shell)"@]
}

/// The whole analysis: (vendor, features, issues, recommendations); version and date stay
/// `Unknown`.
pub open spec fn spec_analysis(inp: BiosInputs) -> (Seq<char>, Seq<Seq<char>>, Seq<Seq<char>>, Seq<Seq<char>>) {
    let vendor = match inp.acpi_oem_id {
        Some(o) => "ACPI OEM: "@ + o@,
        None => "Unknown"@,
    };
    let sys = seq!["ACPI Support: Enabled"@, "PCI Express: Detected"@, "USB Support: Enabled"@];
    let (pf, pi) = pci_findings(inp.wifi);
    let (cf, ci, cr) = chip_findings(inp.wifi);
    let features = sys + pf + seq!["Power Management Analysis: Basic"@] + cf;
    let issues = pi + power_issues(inp.devices@, inp.devices@.len()) + ci;
    (vendor, features, issues, cr + closing_advice(issues))
}

impl BiosAnalyzer {
    /// Runs every check on the registers read from the machine.
    pub fn analyze(inp: &BiosInputs) -> (res: BiosAnalysis)
        ensures
            (res.vendor@, strings_view(res.features@), strings_view(res.issues@), strings_view(res.recommendations@))
                == spec_analysis(*inp),
            res.version@ == "Unknown"@,
            res.date@ == "Unknown"@,
    {
        let mut a = BiosAnalysis {
            vendor: string_of("Unknown"),
            version: string_of("Unknown"),
            date: string_of("Unknown"),
            features: Vec::new(),
            issues: Vec::new(),
            recommendations: Vec::new(),
        };
        Self::analyze_system_info(&mut a, &inp.acpi_oem_id);
        Self::analyze_pci_config(&mut a, &inp.wifi);
        Self::analyze_power_management(&mut a, &inp.devices);
        Self::analyze_wifi_specific(&mut a, &inp.wifi);
        Self::generate_recommendations(&mut a);
        proof {
            let (pf, pi) = pci_findings(inp.wifi);
            let (cf, ci, cr) = chip_findings(inp.wifi);
            let sys = seq!["ACPI Support: Enabled"@, "PCI Express: Detected"@, "USB Support: Enabled"@];
            assert(strings_view(a.features@) =~= sys + pf + seq!["Power Management Analysis: Basic"@] + cf);
            assert(strings_view(a.issues@) =~= pi + power_issues(inp.devices@, inp.devices@.len()) + ci);
        }
        a
    }

    fn analyze_system_info(a: &mut BiosAnalysis, oem: &Option<String>)
        requires
            strings_view(old(a).features@).len() == 0,
        ensures
            final(a).vendor@ == (match oem { Some(o) => "ACPI OEM: "@ + o@, None => old(a).vendor@ }),
            strings_view(final(a).features@) == seq!["ACPI Support: Enabled"@, "PCI Express: Detected"@, "USB Support: Enabled"@],
            final(a).issues@ == old(a).issues@,
            final(a).recommendations@ == old(a).recommendations@,
            final(a).version@ == old(a).version@,
            final(a).date@ == old(a).date@,
    {
        if let Some(o) = oem {
            let mut v = string_of("ACPI OEM: ");
            push_str(&mut v, o.as_str());
            a.vendor = v;
        }
        push_text(&mut a.features, "ACPI Support: Enabled");
        push_text(&mut a.features, "PCI Express: Detected");
        push_text(&mut a.features, "USB Support: Enabled");
        assert(strings_view(a.features@) =~= seq!["ACPI Support: Enabled"@, "PCI Express: Detected"@, "USB Support: Enabled"@]);
    }

    fn analyze_pci_config(a: &mut BiosAnalysis, wifi: &Option<WifiRegisters>)
        ensures
            strings_view(final(a).features@) == strings_view(old(a).features@) + pci_findings(*wifi).0,
            strings_view(final(a).issues@) == strings_view(old(a).issues@) + pci_findings(*wifi).1,
            final(a).recommendations@ == old(a).recommendations@,
            final(a).vendor@ == old(a).vendor@ && final(a).version@ == old(a).version@ && final(a).date@ == old(a).date@,
    {
        let ghost f0 = strings_view(a.features@);
        let ghost i0 = strings_view(a.issues@);
        match wifi {
            None => {
                push_text(&mut a.issues, "WiFi device not found in PCI scan");
                assert(strings_view(a.features@) =~= f0 + Seq::<Seq<char>>::empty());
                assert(strings_view(a.issues@) =~= i0 + seq!["WiFi device not found in PCI scan"@]);
            },
            Some(w) => {
                check_bar0(a, w.bar0);
                let ghost f1 = strings_view(a.features@);
                let ghost i1 = strings_view(a.issues@);
                check_bar1(a, w.bar1);
                let ghost f2 = strings_view(a.features@);
                let ghost i2 = strings_view(a.issues@);
                check_pm(a, w.pmcsr);
                let ghost f3 = strings_view(a.features@);
                let ghost i3 = strings_view(a.issues@);
                check_aspm(a, w.link_ctl);
                let ghost f4 = strings_view(a.features@);
                let ghost i4 = strings_view(a.issues@);
                let cmd = w.command & 0xFFFF;
                record(a, cmd & 2 != 0, string_of("Memory Space: Enabled"),
                    string_of("CRITICAL: Memory Space Disabled - El dispositivo no puede acceder a memoria"));
                let ghost f5 = strings_view(a.features@);
                let ghost i5 = strings_view(a.issues@);
                record(a, cmd & 4 != 0, string_of("Bus Master: Enabled"),
                    string_of("CRITICAL: Bus Master Disabled - El dispositivo no puede iniciar transferencias"));
                proof {
                    lemma_concat6(f0, bar0_finding(w.bar0).0, bar1_finding(w.bar1).0, pm_finding(w.pmcsr).0,
                        aspm_finding(w.link_ctl).0, mem_finding(w.command).0, master_finding(w.command).0);
                    lemma_concat6(i0, bar0_finding(w.bar0).1, bar1_finding(w.bar1).1, pm_finding(w.pmcsr).1,
                        aspm_finding(w.link_ctl).1, mem_finding(w.command).1, master_finding(w.command).1);
                }
            },
        }
    }

    fn analyze_power_management(a: &mut BiosAnalysis, devices: &Vec<DevicePower>)
        ensures
            strings_view(final(a).features@) == strings_view(old(a).features@).push("Power Management Analysis: Basic"@),
            strings_view(final(a).issues@) == strings_view(old(a).issues@) + power_issues(devices@, devices@.len()),
            final(a).recommendations@ == old(a).recommendations@,
            final(a).vendor@ == old(a).vendor@ && final(a).version@ == old(a).version@ && final(a).date@ == old(a).date@,
    {
        push_text(&mut a.features, "Power Management Analysis: Basic");
        let ghost i0 = strings_view(a.issues@);
        let mut k: usize = 0;
        while k < devices.len()
            invariant
                k <= devices@.len(),
                strings_view(a.issues@) == i0 + power_issues(devices@, k as nat),
                strings_view(a.features@) == strings_view(old(a).features@).push("Power Management Analysis: Basic"@),
                a.recommendations@ == old(a).recommendations@,
                a.vendor@ == old(a).vendor@ && a.version@ == old(a).version@ && a.date@ == old(a).date@,
            decreases devices@.len() - k,
        {
            let d = &devices[k];
            if d.device.class_code == 0x02 && d.device.subclass == 0x80 {
                if let Some(p) = d.pmcsr {
                    if p & 3 > 0 {
                        let mut s = string_of("Network device in D");
                        push_dec(&mut s, (p & 3) as u64);
                        push_str(&mut s, " state: ");
                        push_hex_pad(&mut s, d.device.bus as u64, 2);
                        push_str(&mut s, ":");
                        push_hex_pad(&mut s, d.device.device as u64, 2);
                        push_str(&mut s, ".");
                        push_dec(&mut s, d.device.function as u64);
                        push_line(&mut a.issues, s);
                    }
                }
            }
            k = k + 1;
        }
    }

    fn analyze_wifi_specific(a: &mut BiosAnalysis, wifi: &Option<WifiRegisters>)
        ensures
            strings_view(final(a).features@) == strings_view(old(a).features@) + chip_findings(*wifi).0,
            strings_view(final(a).issues@) == strings_view(old(a).issues@) + chip_findings(*wifi).1,
            strings_view(final(a).recommendations@) == strings_view(old(a).recommendations@) + chip_findings(*wifi).2,
            final(a).vendor@ == old(a).vendor@ && final(a).version@ == old(a).version@ && final(a).date@ == old(a).date@,
    {
        let ghost f0 = strings_view(a.features@);
        let ghost i0 = strings_view(a.issues@);
        let ghost r0 = strings_view(a.recommendations@);
        if let Some(w) = wifi {
            if w.device.vendor_id == 0x10EC && w.device.device_id == 0xC822 {
                push_text(&mut a.features, "RTL8822CE detected - HP Laptop 15s-eq2xxx compatible");
                let mut s = string_of("Chip Revision: 0x");
                push_hex_pad(&mut s, (w.class_rev & 0xFF) as u64, 2);
                push_line(&mut a.features, s);
                if w.bar0_again == 0 {
                    push_text(&mut a.issues, "CHIP LOCKED: BAR0=0 indicates BIOS power management lock");
                    push_text(&mut a.recommendations, "Configure BIOS: Disable PCIe ASPM, Set PCIe Gen 2, Disable Secure Boot");
                }
            }
        }
        assert(strings_view(a.features@) =~= f0 + chip_findings(*wifi).0);
        assert(strings_view(a.issues@) =~= i0 + chip_findings(*wifi).1);
        assert(strings_view(a.recommendations@) =~= r0 + chip_findings(*wifi).2);
    }

    fn any_issue_mentions(issues: &Vec<String>, needle: &str) -> (res: bool)
        ensures
            res == mentions(strings_view(issues@), needle@),
    {
        let mut k: usize = 0;
        while k < issues.len()
            invariant
                k <= issues@.len(),
                forall|j: int| 0 <= j < k ==> !seq_contains(#[trigger] strings_view(issues@)[j], needle@),
            decreases issues@.len() - k,
        {
            let cs = chars_of(issues[k].as_str());
            if contains_str(&cs, needle) {
                assert(seq_contains(strings_view(issues@)[k as int], needle@));
                return true;
            }
            k = k + 1;
        }
        false
    }

    fn generate_recommendations(a: &mut BiosAnalysis)
        ensures
            strings_view(final(a).recommendations@) == strings_view(old(a).recommendations@)
                + closing_advice(strings_view(old(a).issues@)),
            final(a).features@ == old(a).features@,
            final(a).issues@ == old(a).issues@,
            final(a).vendor@ == old(a).vendor@ && final(a).version@ == old(a).version@ && final(a).date@ == old(a).date@,
    {
        let ghost r0 = strings_view(a.recommendations@);
        if Self::any_issue_mentions(&a.issues, "BAR0 = 0") {
            push_text(&mut a.recommendations, "BIOS FIX REQUIRED: Enter BIOS setup (F10) and configure:");
            push_text(&mut a.recommendations, "  - Power Management \u{2192} PCIe Power Management: Disabled");
            push_text(&mut a.recommendations, "  - System Configuration \u{2192} PCIe Speed: Gen 2");
            push_text(&mut a.recommendations, "  - Security \u{2192} Secure Boot: Disabled");
            push_text(&mut a.recommendations, "  - Advanced \u{2192} Built-in Device Options \u{2192} Wireless Radio: Enabled");
        }
        if Self::any_issue_mentions(&a.issues, "ASPM") {
            push_text(&mut a.recommendations, "BIOS: Disable PCIe ASPM (Active State Power Management)");
        }
        if Self::any_issue_mentions(&a.issues, "Power State") {
            push_text(&mut a.recommendations, "BIOS: Ensure device is in D0 power state");
        }
        push_text(&mut a.recommendations, "After BIOS changes: Cold boot (power off completely)");
        push_text(&mut a.recommendations, "Test with: wifi diag  (in MesaOS shell)");
        assert(strings_view(a.recommendations@) =~= r0 + closing_advice(strings_view(old(a).issues@)));
    }

    /// The report's lines: the frame, the firmware identity, the features, and the issues
    /// and recommendations when there are any.
    pub fn print_analysis(a: &BiosAnalysis) -> (res: Vec<String>)
        ensures
            strings_view(res@) == spec_print(a.vendor@, a.version@, a.date@, strings_view(a.features@),
                strings_view(a.issues@), strings_view(a.recommendations@)),
    {
        let mut out: Vec<String> = Vec::new();
        push_text(&mut out, "\u{2554}\u{2550}\u{2550}\u{2550}\u{2550}\u{2550}\u{2550}\u{2550}\u{2550}\u{2550}\u{2550}\u{2550}\u{2550}\u{2550}\u{2550}\u{2550}\u{2550}\u{2550}\u{2550}\u{2550}\u{2550}\u{2550}\u{2550}\u{2550}\u{2550}\u{2550}\u{2550}\u{2550}\u{2550}\u{2550}\u{2550}\u{2550}\u{2550}\u{2550}\u{2550}\u{2550}\u{2550}\u{2550}\u{2550}\u{2550}\u{2550}\u{2550}\u{2550}\u{2550}\u{2550}\u{2550}\u{2550}\u{2550}\u{2550}\u{2550}\u{2550}\u{2550}\u{2550}\u{2550}\u{2550}\u{2550}\u{2550}\u{2550}\u{2550}\u{2550}\u{2550}\u{2550}\u{2550}\u{2557}");
        push_text(&mut out, "\u{2551}                 BIOS/UEFI ANALYSIS REPORT                   \u{2551}");
        push_text(&mut out, "\u{2560}\u{2550}\u{2550}\u{2550}\u{2550}\u{2550}\u{2550}\u{2550}\u{2550}\u{2550}\u{2550}\u{2550}\u{2550}\u{2550}\u{2550}\u{2550}\u{2550}\u{2550}\u{2550}\u{2550}\u{2550}\u{2550}\u{2550}\u{2550}\u{2550}\u{2550}\u{2550}\u{2550}\u{2550}\u{2550}\u{2550}\u{2550}\u{2550}\u{2550}\u{2550}\u{2550}\u{2550}\u{2550}\u{2550}\u{2550}\u{2550}\u{2550}\u{2550}\u{2550}\u{2550}\u{2550}\u{2550}\u{2550}\u{2550}\u{2550}\u{2550}\u{2550}\u{2550}\u{2550}\u{2550}\u{2550}\u{2550}\u{2550}\u{2550}\u{2550}\u{2550}\u{2550}\u{2550}\u{2563}");
        push_text(&mut out, "\u{1f4cb} SYSTEM INFO:");
        let mut v = string_of("  Vendor: ");
        push_str(&mut v, a.vendor.as_str());
        push_line(&mut out, v);
        let mut v = string_of("  Version: ");
        push_str(&mut v, a.version.as_str());
        push_line(&mut out, v);
        let mut v = string_of("  Date: ");
        push_str(&mut v, a.date.as_str());
        push_line(&mut out, v);
        let ghost head = strings_view(out@);
        push_text(&mut out, "\n\u{2705} FEATURES DETECTED:");
        indent_all(&mut out, &a.features);
        let ghost mid = strings_view(out@);
        if a.issues.len() > 0 {
            push_text(&mut out, "\n\u{1f6a8} ISSUES FOUND:");
            indent_all(&mut out, &a.issues);
        } else {
            assert(mid + Seq::<Seq<char>>::empty() =~= mid);
        }
        let ghost mid2 = strings_view(out@);
        if a.recommendations.len() > 0 {
            push_text(&mut out, "\n\u{1f4a1} RECOMMENDATIONS:");
            indent_all(&mut out, &a.recommendations);
        } else {
            assert(mid2 + Seq::<Seq<char>>::empty() =~= mid2);
        }
        push_text(&mut out, "\u{255a}\u{2550}\u{2550}\u{2550}\u{2550}\u{2550}\u{2550}\u{2550}\u{2550}\u{2550}\u{2550}\u{2550}\u{2550}\u{2550}\u{2550}\u{2550}\u{2550}\u{2550}\u{2550}\u{2550}\u{2550}\u{2550}\u{2550}\u{2550}\u{2550}\u{2550}\u{2550}\u{2550}\u{2550}\u{2550}\u{2550}\u{2550}\u{2550}\u{2550}\u{2550}\u{2550}\u{2550}\u{2550}\u{2550}\u{2550}\u{2550}\u{2550}\u{2550}\u{2550}\u{2550}\u{2550}\u{2550}\u{2550}\u{2550}\u{2550}\u{2550}\u{2550}\u{2550}\u{2550}\u{2550}\u{2550}\u{2550}\u{2550}\u{2550}\u{2550}\u{2550}\u{2550}\u{2550}\u{255d}");
        proof {
            assert(strings_view(out@) =~= spec_print(a.vendor@, a.version@, a.date@, strings_view(a.features@),
                strings_view(a.issues@), strings_view(a.recommendations@)));
        }
        out
    }
}

/// Each line indented by two spaces.
pub open spec fn indented(v: Seq<Seq<char>>) -> Seq<Seq<char>> {
    Seq::new(v.len(), |i: int| "  "@ + v[i])
}

fn indent_all(out: &mut Vec<String>, items: &Vec<String>)
    ensures
        strings_view(final(out)@) == strings_view(old(out)@) + indented(strings_view(items@)),
{
    let ghost o0 = strings_view(out@);
    let mut k: usize = 0;
    while k < items.len()
        invariant
            k <= items@.len(),
            strings_view(out@) == o0 + indented(strings_view(items@)).subrange(0, k as int),
        decreases items@.len() - k,
    {
        let mut s = string_of("  ");
        push_str(&mut s, items[k].as_str());
        push_line(out, s);
        k = k + 1;
        assert(strings_view(out@) =~= o0 + indented(strings_view(items@)).subrange(0, k as int));
    }
    assert(indented(strings_view(items@)).subrange(0, items@.len() as int) =~= indented(strings_view(items@)));
}

/// The lines of the report for the given findings.
pub open spec fn spec_print(vendor: Seq<char>, version: Seq<char>, date: Seq<char>, features: Seq<Seq<char>>,
    issues: Seq<Seq<char>>, recs: Seq<Seq<char>>) -> Seq<Seq<char>> {
    seq!["\u{2554}\u{2550}\u{2550}\u{2550}\u{2550}\u{2550}\u{2550}\u{2550}\u{2550}\u{2550}\u{2550}\u{2550}\u{2550}\u{2550}\u{2550}\u{2550}\u{2550}\u{2550}\u{2550}\u{2550}\u{2550}\u{2550}\u{2550}\u{2550}\u{2550}\u{2550}\u{2550}\u{2550}\u{2550}\u{2550}\u{2550}\u{2550}\u{2550}\u{2550}\u{2550}\u{2550}\u{2550}\u{2550}\u{2550}\u{2550}\u{2550}\u{2550}\u{2550}\u{2550}\u{2550}\u{2550}\u{2550}\u{2550}\u{2550}\u{2550}\u{2550}\u{2550}\u{2550}\u{2550}\u{2550}\u{2550}\u{2550}\u{2550}\u{2550}\u{2550}\u{2550}\u{2550}\u{2550}\u{2557}"@, "\u{2551}                 BIOS/UEFI ANALYSIS REPORT                   \u{2551}"@, "\u{2560}\u{2550}\u{2550}\u{2550}\u{2550}\u{2550}\u{2550}\u{2550}\u{2550}\u{2550}\u{2550}\u{2550}\u{2550}\u{2550}\u{2550}\u{2550}\u{2550}\u{2550}\u{2550}\u{2550}\u{2550}\u{2550}\u{2550}\u{2550}\u{2550}\u{2550}\u{2550}\u{2550}\u{2550}\u{2550}\u{2550}\u{2550}\u{2550}\u{2550}\u{2550}\u{2550}\u{2550}\u{2550}\u{2550}\u{2550}\u{2550}\u{2550}\u{2550}\u{2550}\u{2550}\u{2550}\u{2550}\u{2550}\u{2550}\u{2550}\u{2550}\u{2550}\u{2550}\u{2550}\u{2550}\u{2550}\u{2550}\u{2550}\u{2550}\u{2550}\u{2550}\u{2550}\u{2550}\u{2563}"@, "\u{1f4cb} SYSTEM INFO:"@, "  Vendor: "@ + vendor, "  Version: "@ + version,
        "  Date: "@ + date, "\n\u{2705} FEATURES DETECTED:"@] + indented(features)
        + (if issues.len() > 0 { seq!["\n\u{1f6a8} ISSUES FOUND:"@] + indented(issues) } else { Seq::empty() })
        + (if recs.len() > 0 { seq!["\n\u{1f4a1} RECOMMENDATIONS:"@] + indented(recs) } else { Seq::empty() })
        + seq!["\u{255a}\u{2550}\u{2550}\u{2550}\u{2550}\u{2550}\u{2550}\u{2550}\u{2550}\u{2550}\u{2550}\u{2550}\u{2550}\u{2550}\u{2550}\u{2550}\u{2550}\u{2550}\u{2550}\u{2550}\u{2550}\u{2550}\u{2550}\u{2550}\u{2550}\u{2550}\u{2550}\u{2550}\u{2550}\u{2550}\u{2550}\u{2550}\u{2550}\u{2550}\u{2550}\u{2550}\u{2550}\u{2550}\u{2550}\u{2550}\u{2550}\u{2550}\u{2550}\u{2550}\u{2550}\u{2550}\u{2550}\u{2550}\u{2550}\u{2550}\u{2550}\u{2550}\u{2550}\u{2550}\u{2550}\u{2550}\u{2550}\u{2550}\u{2550}\u{2550}\u{2550}\u{2550}\u{2550}\u{255d}"@]
}

/// The shell command: the notice, then the report of the analysis.
pub fn bios_analyze_cmd(inp: &BiosInputs) -> (res: Vec<String>)
    ensures
        ({
            let (vendor, f, i, r) = spec_analysis(*inp);
            strings_view(res@) == seq!["\u{1f50d} Analyzing BIOS/UEFI configuration for WiFi compatibility..."@]
                + spec_print(vendor, "Unknown"@, "Unknown"@, f, i, r)
        }),
{
    let analysis = BiosAnalyzer::analyze(inp);
    let mut out: Vec<String> = Vec::new();
    push_text(&mut out, "\u{1f50d} Analyzing BIOS/UEFI configuration for WiFi compatibility...");
    let mut report = BiosAnalyzer::print_analysis(&analysis);
    let ghost o = strings_view(out@);
    let ghost r = strings_view(report@);
    out.append(&mut report);
    assert(strings_view(out@) =~= o + r);
    out
}

} // verus!
