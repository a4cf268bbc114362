//! Battery state from the ACPI `_BST`/`_BIF` packages or, failing that, from the
//! Embedded Controller registers.
use vstd::prelude::*;
use crate::text::{chars_of, contains_str, dec, dec_pad, pad_right, push_char, push_dec, push_dec_pad, push_padded, push_str, repeat, seq_contains, spec_uppercase, str_eq, string_of, to_uppercase};
use crate::console::{Color, Styled, emit, emit_str, styled_view};
use crate::ui::{color_of, spec_color, FOAM, GOLD, IRIS, LOVE, MUTED, SUBTLE, SUCCESS, TEXT};

verus! {

#[derive(Debug, Clone, Copy, PartialEq, Eq, Structural)]
pub enum BatteryTechnology {
    Unknown,
    LiIon,
    LiPoly,
    LiFe,
    NiCd,
    NiMH,
    LeadAcid,
    Rechargeable,
    Primary,
}

impl BatteryTechnology {
    pub fn as_str(&self) -> (res: &'static str)
        ensures
            res@ == spec_technology_name(*self),
    {
        match self {
            BatteryTechnology::Unknown => "Unknown",
            BatteryTechnology::LiIon => "Li-ion",
            BatteryTechnology::LiPoly => "Li-poly",
            BatteryTechnology::LiFe => "LiFe",
            BatteryTechnology::NiCd => "NiCd",
            BatteryTechnology::NiMH => "NiMH",
            BatteryTechnology::LeadAcid => "Lead-acid",
            BatteryTechnology::Rechargeable => "Rechargeable",
            BatteryTechnology::Primary => "Primary (non-rechargeable)",
        }
    }

    /// The technology of an ACPI `_BIF` technology code.
    pub fn from_acpi(code: u64) -> (res: Self)
        ensures
            code == 0 ==> res == BatteryTechnology::Primary,
            code == 1 ==> res == BatteryTechnology::Rechargeable,
            code >= 2 ==> res == BatteryTechnology::Unknown,
    {
        match code {
            0 => BatteryTechnology::Primary,
            1 => BatteryTechnology::Rechargeable,
            _ => BatteryTechnology::Unknown,
        }
    }
}

pub open spec fn spec_technology_name(t: BatteryTechnology) -> Seq<char> {
    match t {
        BatteryTechnology::Unknown => "Unknown"@,
        BatteryTechnology::LiIon => "Li-ion"@,
        BatteryTechnology::LiPoly => "Li-poly"@,
        BatteryTechnology::LiFe => "LiFe"@,
        BatteryTechnology::NiCd => "NiCd"@,
        BatteryTechnology::NiMH => "NiMH"@,
        BatteryTechnology::LeadAcid => "Lead-acid"@,
        BatteryTechnology::Rechargeable => "Rechargeable"@,
        BatteryTechnology::Primary => "Primary (non-rechargeable)"@,
    }
}

#[derive(Debug, Clone, Copy, PartialEq, Eq, Structural)]
pub enum ChargingState {
    Unknown,
    Charging,
    Discharging,
    Full,
    NotCharging,
    Absent,
}

pub open spec fn spec_state_name(s: ChargingState) -> Seq<char> {
    match s {
        ChargingState::Unknown => "unknown"@,
        ChargingState::Charging => "charging"@,
        ChargingState::Discharging => "discharging"@,
        ChargingState::Full => "fully-charged"@,
        ChargingState::NotCharging => "not charging"@,
        ChargingState::Absent => "absent"@,
    }
}

impl ChargingState {
    pub fn as_str(&self) -> (res: &'static str)
        ensures
            res@ == spec_state_name(*self),
    {
        match self {
            ChargingState::Unknown => "unknown",
            ChargingState::Charging => "charging",
            ChargingState::Discharging => "discharging",
            ChargingState::Full => "fully-charged",
            ChargingState::NotCharging => "not charging",
            ChargingState::Absent => "absent",
        }
    }
}

#[derive(Debug, Clone, Copy, PartialEq, Eq, Structural)]
pub enum Health {
    Unknown,
    Good,
    Overheat,
    Dead,
    Overvoltage,
    UnspecFailure,
    Cold,
    WatchdogTimerExpired,
    SafetyTimerExpired,
    /// Worked out from the wear: the remaining capacity in percent.
    Worn(u8),
}

pub open spec fn spec_health_name(h: Health) -> Seq<char> {
    match h {
        Health::Good => "good"@,
        Health::Overheat => "overheat"@,
        Health::Dead => "dead"@,
        Health::Overvoltage => "overvoltage"@,
        Health::UnspecFailure => "unspec failure"@,
        Health::Cold => "cold"@,
        Health::WatchdogTimerExpired => "watchdog timer expired"@,
        Health::SafetyTimerExpired => "safety timer expired"@,
        Health::Worn(p) => if 90 <= p <= 100 { "good"@ } else if 70 <= p <= 89 { "fair"@ } else if 50 <= p <= 69 {
            "poor"@
        } else {
            "critical"@
        },
        Health::Unknown => "unknown"@,
    }
}

impl Health {
    pub fn as_str(&self) -> (res: &'static str)
        ensures
            res@ == spec_health_name(*self),
    {
        match self {
            Health::Good => "good",
            Health::Overheat => "overheat",
            Health::Dead => "dead",
            Health::Overvoltage => "overvoltage",
            Health::UnspecFailure => "unspec failure",
            Health::Cold => "cold",
            Health::WatchdogTimerExpired => "watchdog timer expired",
            Health::SafetyTimerExpired => "safety timer expired",
            Health::Worn(p) => {
                let p = *p;
                if 90 <= p && p <= 100 {
                    "good"
                } else if 70 <= p && p <= 89 {
                    "fair"
                } else if 50 <= p && p <= 69 {
                    "poor"
                } else {
                    "critical"
                }
            },
            Health::Unknown => "unknown",
        }
    }
}

/// The short battery state shown in the status bar.
#[derive(Debug, Clone, Copy, PartialEq, Eq, Structural)]
pub struct BatteryStatus {
    pub percentage: u8,
    pub is_charging: bool,
    pub present: bool,
    pub via_aml: bool,
}

/// The full battery report.
pub struct BatteryReport {
    pub present: bool,
    pub percentage: u8,
    pub state: ChargingState,
    pub is_charging: bool,
    pub health: Health,
    pub design_capacity: u64,
    pub full_charge: u64,
    pub current_capacity: u64,
    pub capacity_unit: u8,
    pub unit_name: &'static str,
    pub voltage_mv: u32,
    pub rate_mw: i32,
    pub time_to_full_sec: u32,
    pub time_to_empty_sec: u32,
    pub temperature_dc: i32,
    pub model: String,
    pub serial: String,
    pub oem_info: String,
    pub manufacturer: String,
    pub technology: BatteryTechnology,
    pub design_voltage_mv: u32,
    pub design_capacity_warning: u64,
    pub design_capacity_low: u64,
    pub cycle_count: Option<u32>,
    pub soh_percent: Option<u8>,
    pub via_aml: bool,
    pub source: &'static str,
}

/// A 16-bit little-endian word from two register reads; `None` if either failed.
pub fn ec_read_word(lo: Option<u8>, hi: Option<u8>) -> (res: Option<u16>)
    ensures
        (lo is Some && hi is Some) ==> res == Some((hi->0 as nat * 256 + lo->0 as nat) as u16),
        (lo is None || hi is None) ==> res is None,
{
    let l = match lo {
        Some(v) => v,
        None => return None,
    };
    let h = match hi {
        Some(v) => v,
        None => return None,
    };
    Some((h as u16) * 256 + l as u16)
}

/// The registers of one battery slot of the Embedded Controller, as read (`None` where a
/// read failed).
#[derive(Debug, Clone, Copy, PartialEq, Eq, Structural)]
pub struct EcSlot {
    pub percentage: Option<u8>,
    pub remaining: Option<u8>,
    pub design: Option<u8>,
    pub full: Option<u8>,
    pub voltage: Option<u16>,
    pub rate: Option<u16>,
    pub temperature: Option<u8>,
    pub status: Option<u8>,
}

/// Both slots of the Embedded Controller.
#[derive(Debug, Clone, Copy, PartialEq, Eq, Structural)]
pub struct EcSnapshot {
    pub slot1: EcSlot,
    pub slot2: EcSlot,
}

pub open spec fn opt_u8(v: Option<u8>) -> u8 {
    match v { Some(x) => x, None => 0 }
}

pub open spec fn opt_u16(v: Option<u16>) -> u16 {
    match v { Some(x) => x, None => 0 }
}

pub open spec fn valid_pct(v: Option<u8>) -> bool {
    v matches Some(p) && 1 <= p <= 100
}

/// The slot holding a battery: the first slot if its percentage reads 1..=100, otherwise
/// the second if it does (provided the first read at all).
pub open spec fn chosen_slot(snap: EcSnapshot) -> Option<EcSlot> {
    if snap.slot1.percentage is None {
        None
    } else if valid_pct(snap.slot1.percentage) {
        Some(snap.slot1)
    } else if valid_pct(snap.slot2.percentage) {
        Some(snap.slot2)
    } else {
        None
    }
}

/// The short state read from the Embedded Controller: the first percentage register
/// holding 1..=100 and the charging bit of the status register.
pub open spec fn spec_ec_status(pct1: Option<u8>, pct2: Option<u8>, status: Option<u8>) -> BatteryStatus {
    let present = valid_pct(pct1) || valid_pct(pct2);
    BatteryStatus {
        percentage: if valid_pct(pct1) { opt_u8(pct1) } else if valid_pct(pct2) { opt_u8(pct2) } else { 0 },
        is_charging: present && (status matches Some(s) && s % 2 == 1),
        present,
        via_aml: false,
    }
}

/// The short battery state from the Embedded Controller registers `0xD0`, `0xD8` and
/// `0x8A`.
pub fn try_ec_direct_status(pct1: Option<u8>, pct2: Option<u8>, status: Option<u8>) -> (res: BatteryStatus)
    ensures
        res == spec_ec_status(pct1, pct2, status),
{
    let mut percentage: u8 = 0;
    let mut present = false;
    if let Some(v) = pct1 {
        if v > 0 && v <= 100 {
            percentage = v;
            present = true;
        }
    }
    if !present {
        if let Some(v) = pct2 {
            if v > 0 && v <= 100 {
                percentage = v;
                present = true;
            }
        }
    }
    let mut is_charging = false;
    if present {
        if let Some(s) = status {
            is_charging = s % 2 == 1;
        }
    }
    BatteryStatus { percentage, is_charging, present, via_aml: false }
}

/// The log line of driver start-up.
pub fn init(status: BatteryStatus) -> (res: String)
    ensures
        status.present ==> res@ == "[BATTERY] "@ + dec(status.percentage as nat) + "% EC directo (cargando: "@
            + (if status.is_charging { "true"@ } else { "false"@ }) + ")"@,
        !status.present ==> res@ == "[BATTERY] Sin batería detectada (desktop / VM)"@,
{
    if status.present {
        let mut s = string_of("[BATTERY] ");
        crate::text::push_dec(&mut s, status.percentage as u64);
        push_str(&mut s, "% EC directo (cargando: ");
        push_str(&mut s, if status.is_charging { "true" } else { "false" });
        push_str(&mut s, ")");
        s
    } else {
        string_of("[BATTERY] Sin batería detectada (desktop / VM)")
    }
}

/// The report when no battery is found.
pub fn mock_report() -> (res: BatteryReport)
    ensures
        is_mock(res),
{
    BatteryReport {
        present: false,
        percentage: 0,
        state: ChargingState::Absent,
        is_charging: false,
        health: Health::Unknown,
        design_capacity: 0,
        full_charge: 0,
        current_capacity: 0,
        capacity_unit: 0,
        unit_name: "mAh",
        voltage_mv: 0,
        rate_mw: 0,
        time_to_full_sec: 0,
        time_to_empty_sec: 0,
        temperature_dc: 0,
        model: string_of("N/A"),
        serial: String::new(),
        oem_info: String::new(),
        manufacturer: String::new(),
        technology: BatteryTechnology::Unknown,
        design_voltage_mv: 0,
        design_capacity_warning: 0,
        design_capacity_low: 0,
        cycle_count: None,
        soh_percent: None,
        via_aml: false,
        source: "None",
    }
}

/// The report of an absent battery.
pub open spec fn is_mock(r: BatteryReport) -> bool {
    &&& !r.present && r.percentage == 0 && r.state == ChargingState::Absent && !r.is_charging
    &&& r.health == Health::Unknown
    &&& r.design_capacity == 0 && r.full_charge == 0 && r.current_capacity == 0 && r.capacity_unit == 0
    &&& r.unit_name@ == "mAh"@ && r.voltage_mv == 0 && r.rate_mw == 0
    &&& r.time_to_full_sec == 0 && r.time_to_empty_sec == 0 && r.temperature_dc == 0
    &&& r.model@ == "N/A"@ && r.serial@.len() == 0 && r.oem_info@.len() == 0 && r.manufacturer@.len() == 0
    &&& r.technology == BatteryTechnology::Unknown && r.design_voltage_mv == 0
    &&& r.design_capacity_warning == 0 && r.design_capacity_low == 0
    &&& r.cycle_count is None && r.soh_percent is None && !r.via_aml && r.source@ == "None"@
}

/// State of health: full-charge capacity as a percentage of the design capacity, when
/// both are known and the battery has not grown.
pub open spec fn spec_soh(design: u64, full: u64) -> Option<u8> {
    if design > 0 && full > 0 && full <= design { Some(((full * 100) / (design as int)) as u8) } else { None }
}

fn soh(design: u64, full: u64) -> (res: Option<u8>)
    requires
        full * 100 <= u64::MAX,
    ensures
        res == spec_soh(design, full),
{
    if design > 0 && full > 0 && full <= design {
        Some(((full * 100) / design) as u8)
    } else {
        None
    }
}

/// The Embedded Controller's charge state: status bit 0 charging, bit 1 discharging,
/// otherwise full at 100 % or not charging.
pub open spec fn spec_ec_state(status_bits: u8, pct: u8) -> ChargingState {
    if status_bits % 2 == 1 {
        ChargingState::Charging
    } else if (status_bits / 2) % 2 == 1 {
        ChargingState::Discharging
    } else if pct == 100 {
        ChargingState::Full
    } else {
        ChargingState::NotCharging
    }
}

/// Power in mW from a current in mA and a voltage in mV, signed by the direction of flow.
pub open spec fn spec_ec_rate(rate: u16, voltage: u32, charging: bool) -> int {
    if rate == 0 || rate == 0xFFFF || voltage == 0 {
        0
    } else {
        let mw = (rate * (voltage as i32) as int) / 1000;
        if charging { mw } else { -mw }
    }
}

/// Seconds to full (when charging) and to empty (when not), at the given rate.
pub open spec fn spec_ec_times(rate: u16, charging: bool, full: u64, remain: u64) -> (u32, u32) {
    if rate > 0 && rate != 0xFFFF {
        if charging && full > remain {
            ((((full - remain) * 3600) / rate as int) as u32, 0)
        } else if !charging && remain > 0 {
            (0, (((remain * 3600) / rate as int) as u32))
        } else {
            (0, 0)
        }
    } else {
        (0, 0)
    }
}

/// The Embedded Controller report for the chosen slot.
pub open spec fn is_ec_report(r: BatteryReport, s: EcSlot) -> bool {
    let pct = opt_u8(s.percentage);
    let design = opt_u8(s.design) as u64;
    let full = opt_u8(s.full) as u64;
    let remain = opt_u8(s.remaining) as u64;
    let voltage = opt_u16(s.voltage) as u32;
    let rate = opt_u16(s.rate);
    let temp = opt_u8(s.temperature);
    let state = spec_ec_state(opt_u8(s.status), pct);
    let charging = state == ChargingState::Charging;
    let times = spec_ec_times(rate, charging, full, remain);
    &&& r.present && r.percentage == pct && r.state == state && r.is_charging == charging
    &&& r.design_capacity == design && r.full_charge == full && r.current_capacity == remain
    &&& r.capacity_unit == 0 && r.unit_name@ == "mAh"@ && r.voltage_mv == voltage
    &&& r.rate_mw == spec_ec_rate(rate, voltage, charging)
    &&& r.temperature_dc == (if temp > 0 { temp * 10 - 2731 } else { 0 })
    &&& r.time_to_full_sec == times.0 && r.time_to_empty_sec == times.1
    &&& r.soh_percent == spec_soh(design, full)
    &&& r.health == (match spec_soh(design, full) { Some(p) => Health::Worn(p), None => Health::Unknown })
    &&& r.model@ == "EC Battery"@ && r.serial@.len() == 0 && r.oem_info@.len() == 0 && r.manufacturer@.len() == 0
    &&& r.technology == BatteryTechnology::Unknown && r.design_voltage_mv == 0
    &&& r.design_capacity_warning == 0 && r.design_capacity_low == 0 && r.cycle_count is None
    &&& !r.via_aml && r.source@ == "EC"@
}

/// From the Embedded Controller, a discharging battery with a usable rate (neither 0 nor
/// 0xFFFF) and some charge left is empty after its remaining capacity divided by the rate,
/// in seconds (`remaining * 3600 / rate`), and has no time to full; a charging one below
/// its full-charge capacity is full after the missing capacity divided by the rate.
pub proof fn law_ec_times(r: BatteryReport, s: EcSlot, remaining: u8, full: u8, rate: u16)
    requires
        is_ec_report(r, s),
        s.remaining == Some(remaining),
        s.full == Some(full),
        s.rate == Some(rate),
        0 < rate < 0xFFFF,
    ensures
        r.state == ChargingState::Discharging && remaining > 0 ==> r.time_to_empty_sec == remaining as nat * 3600 / (rate as nat)
            && r.time_to_full_sec == 0,
        r.state == ChargingState::Charging && full > remaining ==> r.time_to_full_sec
            == (full - remaining) as nat * 3600 / (rate as nat) && r.time_to_empty_sec == 0,
{
    assert(remaining as nat * 3600 / (rate as nat) <= 255 * 3600) by (nonlinear_arith)
        requires remaining <= 255, rate >= 1;
    if full >= remaining {
        assert((full - remaining) as nat * 3600 / (rate as nat) <= 255 * 3600) by (nonlinear_arith)
            requires full - remaining <= 255, rate >= 1, full >= remaining;
    }
}

/// From the Embedded Controller, the power is the current times the voltage in
/// milliwatts (mA x mV / 1000), negative while not charging; the temperature, read in
/// kelvin, is reported in tenths of a degree Celsius.
pub proof fn law_ec_power_and_temperature(r: BatteryReport, s: EcSlot, rate: u16, voltage: u16)
    requires
        is_ec_report(r, s),
        s.rate == Some(rate),
        s.voltage == Some(voltage),
        0 < rate < 0xFFFF,
        voltage > 0,
    ensures
        r.is_charging ==> r.rate_mw == rate as int * voltage as int / 1000,
        !r.is_charging ==> r.rate_mw == -(rate as int * voltage as int / 1000),
        s.temperature matches Some(t) ==> (t > 0 ==> r.temperature_dc == t as int * 10 - 2731),
{
}

/// The time to empty of an Embedded Controller report does not depend on the
/// full-charge capacity: two slots that differ only there give the same time.
pub proof fn law_ec_time_to_empty_ignores_full(r1: BatteryReport, s1: EcSlot, r2: BatteryReport, s2: EcSlot)
    requires
        is_ec_report(r1, s1),
        is_ec_report(r2, s2),
        s2 == (EcSlot { full: s2.full, ..s1 }),
        r1.state == ChargingState::Discharging,
    ensures
        r2.time_to_empty_sec == r1.time_to_empty_sec,
{
}

/// The readings on which the power computation stays within 32 bits.
pub open spec fn ec_report_ok(snap: EcSnapshot) -> bool {
    chosen_slot(snap) matches Some(s) ==> opt_u16(s.rate) * opt_u16(s.voltage) <= i32::MAX
}

/// The report from the Embedded Controller registers: the slot with a battery, or the
/// report of an absent battery.
pub fn try_ec_direct_report(snap: EcSnapshot) -> (res: BatteryReport)
    requires
        ec_report_ok(snap),
    ensures
        match chosen_slot(snap) {
            Some(s) => is_ec_report(res, s),
            None => is_mock(res),
        },
{
    let slot = match snap.slot1.percentage {
        Some(p) => {
            if p > 0 && p <= 100 {
                snap.slot1
            } else {
                match snap.slot2.percentage {
                    Some(p2) => {
                        if p2 > 0 && p2 <= 100 {
                            snap.slot2
                        } else {
                            return mock_report();
                        }
                    },
                    None => return mock_report(),
                }
            }
        },
        None => return mock_report(),
    };
    let pct = match slot.percentage { Some(x) => x, None => 0 };
    let design_cap = (match slot.design { Some(x) => x, None => 0 }) as u64;
    let full_cap = (match slot.full { Some(x) => x, None => 0 }) as u64;
    let remain_cap = (match slot.remaining { Some(x) => x, None => 0 }) as u64;
    let voltage_mv = (match slot.voltage { Some(x) => x, None => 0 }) as u32;
    let rate_raw_v = match slot.rate { Some(x) => x, None => 0 };
    let temp_k = match slot.temperature { Some(x) => x, None => 0 };
    let status_bits = match slot.status { Some(x) => x, None => 0 };
    let (state, is_charging) = if status_bits % 2 == 1 {
        (ChargingState::Charging, true)
    } else if (status_bits / 2) % 2 == 1 {
        (ChargingState::Discharging, false)
    } else if pct == 100 {
        (ChargingState::Full, false)
    } else {
        (ChargingState::NotCharging, false)
    };
    let rate_mw: i32 = if rate_raw_v == 0 || rate_raw_v == 0xFFFF {
        0
    } else if voltage_mv > 0 {
        assert(rate_raw_v as int * voltage_mv as int <= i32::MAX);
        let mw = ((rate_raw_v as i32) * (voltage_mv as i32)) / 1000;
        if is_charging { mw } else { -mw }
    } else {
        0
    };
    let temperature_dc: i32 = if temp_k > 0 { (temp_k as i32) * 10 - 2731 } else { 0 };
    let (time_to_full, time_to_empty) = if rate_raw_v > 0 && rate_raw_v != 0xFFFF {
        if is_charging && full_cap > remain_cap {
            let secs = ((full_cap - remain_cap) as u64) * 3600 / rate_raw_v as u64;
            (secs as u32, 0u32)
        } else if !is_charging && remain_cap > 0 {
            let secs = ((remain_cap as u64) * 3600) / rate_raw_v as u64;
            (0u32, secs as u32)
        } else {
            (0u32, 0u32)
        }
    } else {
        (0u32, 0u32)
    };
    let soh = soh(design_cap, full_cap);
    let health = match soh {
        Some(p) => Health::Worn(p),
        None => Health::Unknown,
    };
    BatteryReport {
        present: true,
        percentage: pct,
        state,
        is_charging,
        health,
        design_capacity: design_cap,
        full_charge: full_cap,
        current_capacity: remain_cap,
        capacity_unit: 0,
        unit_name: "mAh",
        voltage_mv,
        rate_mw,
        time_to_full_sec: time_to_full,
        time_to_empty_sec: time_to_empty,
        temperature_dc,
        model: string_of("EC Battery"),
        serial: String::new(),
        oem_info: String::new(),
        manufacturer: String::new(),
        technology: BatteryTechnology::Unknown,
        design_voltage_mv: 0,
        design_capacity_warning: 0,
        design_capacity_low: 0,
        cycle_count: None,
        soh_percent: soh,
        via_aml: false,
        source: "EC",
    }
}

/// The short state of a full report.
pub fn read_status(r: &BatteryReport) -> (res: BatteryStatus)
    ensures
        res == (BatteryStatus { percentage: r.percentage, is_charging: r.is_charging, present: r.present, via_aml: r.via_aml }),
{
    BatteryStatus { percentage: r.percentage, is_charging: r.is_charging, present: r.present, via_aml: r.via_aml }
}

/// The report to show: the ACPI report when there is one, else the Embedded
/// Controller's.
pub fn read_report(aml: Option<BatteryReport>, snap: EcSnapshot) -> (res: BatteryReport)
    requires
        aml is None ==> ec_report_ok(snap),
    ensures
        aml is Some ==> Some(res) == aml,
        aml is None ==> match chosen_slot(snap) {
            Some(s) => is_ec_report(res, s),
            None => is_mock(res),
        },
{
    match aml {
        Some(r) => r,
        None => try_ec_direct_report(snap),
    }
}

/// The values of the `_BST` package: state bits, present rate, remaining capacity and
/// present voltage.
#[derive(Debug, Clone, Copy, PartialEq, Eq, Structural)]
pub struct BstInfo {
    pub state_bits: u32,
    pub rate: u64,
    pub remaining: u64,
    pub voltage: u32,
}

/// The values of the `_BIF` package that the report uses.
pub struct BifInfo {
    pub unit: u8,
    pub design_capacity: u64,
    pub full_capacity: u64,
    pub technology_code: u64,
    pub design_voltage: u32,
    pub warning_capacity: u64,
    pub low_capacity: u64,
    pub model: String,
    pub serial: String,
    pub battery_type: String,
    pub oem: String,
}

/// The `_BST` charge state: critical and discharging bits mean discharging, the charging
/// bit charging, no bit full.
pub open spec fn spec_bst_state(bits: u32) -> ChargingState {
    if (bits / 4) % 2 == 1 {
        ChargingState::Discharging
    } else if bits % 2 == 1 {
        ChargingState::Discharging
    } else if (bits / 2) % 2 == 1 {
        ChargingState::Charging
    } else {
        ChargingState::Full
    }
}

pub fn decode_bst_state(bits: u32) -> (res: ChargingState)
    ensures
        res == spec_bst_state(bits),
{
    if (bits / 4) % 2 == 1 {
        ChargingState::Discharging
    } else if bits % 2 == 1 {
        ChargingState::Discharging
    } else if (bits / 2) % 2 == 1 {
        ChargingState::Charging
    } else {
        ChargingState::Full
    }
}

/// The technology named by a `_BIF` battery-type text (compared in upper case), or by the
/// technology code when the text is empty.
pub open spec fn spec_technology(btype: Seq<char>, code: u64) -> BatteryTechnology {
    let bt = spec_uppercase(btype);
    if btype.len() == 0 {
        if code == 0 { BatteryTechnology::Primary } else if code == 1 { BatteryTechnology::Rechargeable } else { BatteryTechnology::Unknown }
    } else if seq_contains(bt, "LION"@) || seq_contains(bt, "LI-ION"@) {
        BatteryTechnology::LiIon
    } else if seq_contains(bt, "LIPOLY"@) || seq_contains(bt, "LI-POLY"@) || seq_contains(bt, "LIPO"@) {
        BatteryTechnology::LiPoly
    } else if seq_contains(bt, "LIFE"@) || seq_contains(bt, "LIFEPO4"@) {
        BatteryTechnology::LiFe
    } else if seq_contains(bt, "NICD"@) {
        BatteryTechnology::NiCd
    } else if seq_contains(bt, "NIMH"@) {
        BatteryTechnology::NiMH
    } else if seq_contains(bt, "LEAD"@) || seq_contains(bt, "PB"@) || seq_contains(bt, "ACID"@) {
        BatteryTechnology::LeadAcid
    } else if seq_contains(bt, "PRIMARY"@) {
        BatteryTechnology::Primary
    } else {
        BatteryTechnology::Unknown
    }
}

pub fn technology_from_type(btype: &str, code: u64) -> (res: BatteryTechnology)
    ensures
        res == spec_technology(btype@, code),
{
    let chars = chars_of(btype);
    if chars.len() == 0 {
        return BatteryTechnology::from_acpi(code);
    }
    let up = to_uppercase(btype);
    let bt = chars_of(up.as_str());
    if contains_str(&bt, "LION") || contains_str(&bt, "LI-ION") {
        BatteryTechnology::LiIon
    } else if contains_str(&bt, "LIPOLY") || contains_str(&bt, "LI-POLY") || contains_str(&bt, "LIPO") {
        BatteryTechnology::LiPoly
    } else if contains_str(&bt, "LIFE") || contains_str(&bt, "LIFEPO4") {
        BatteryTechnology::LiFe
    } else if contains_str(&bt, "NICD") {
        BatteryTechnology::NiCd
    } else if contains_str(&bt, "NIMH") {
        BatteryTechnology::NiMH
    } else if contains_str(&bt, "LEAD") || contains_str(&bt, "PB") || contains_str(&bt, "ACID") {
        BatteryTechnology::LeadAcid
    } else if contains_str(&bt, "PRIMARY") {
        BatteryTechnology::Primary
    } else {
        BatteryTechnology::Unknown
    }
}

/// Power in mW from the `_BST` rate: directly when the unit is mW, else from mA and the
/// voltage; positive when charging, negative when discharging, zero otherwise or when
/// the rate is unknown.
pub open spec fn spec_aml_rate(rate: u64, unit: u8, voltage: u32, state: ChargingState) -> int {
    if rate == 0 || rate == 0xFFFF_FFFF || rate == 0x7FFF_FFFF {
        0
    } else if unit == 1 {
        if state == ChargingState::Charging { (rate as i32) as int } else if state == ChargingState::Discharging { -((rate as i32) as int) } else { 0 }
    } else if (voltage as i32) > 0 {
        let mw = tdiv((rate as i32) * (voltage as i32), 1000);
        if state == ChargingState::Charging { mw } else if state == ChargingState::Discharging { -mw } else { 0 }
    } else {
        0
    }
}

pub open spec fn tdiv(a: int, b: int) -> int {
    crate::rtc::tdiv(a, b)
}

/// Seconds to full (charging) and to empty (discharging) at the `_BST` rate.
pub open spec fn spec_aml_times(rate: u64, state: ChargingState, full: u64, remaining: u64) -> (u32, u32) {
    if rate > 0 && rate != 0xFFFF_FFFF {
        if state == ChargingState::Charging && full > remaining {
            ((((full - remaining) * 3600) / rate as int) as u32, 0)
        } else if state == ChargingState::Discharging && remaining > 0 {
            (0, ((remaining * 3600) / rate as int) as u32)
        } else {
            (0, 0)
        }
    } else {
        (0, 0)
    }
}

/// The inputs on which the report's arithmetic stays within the machine integers.
pub open spec fn aml_report_ok(bst: BstInfo, bif: &BifInfo) -> bool {
    let state = spec_bst_state(bst.state_bits);
    let special = bst.rate == 0 || bst.rate == 0xFFFF_FFFF || bst.rate == 0x7FFF_FFFF;
    &&& bst.remaining * 100 <= u64::MAX
    &&& bif.full_capacity * 100 <= u64::MAX
    &&& (!special && bif.unit == 1 && state == ChargingState::Discharging) ==> (bst.rate as i32) != i32::MIN
    &&& (!special && bif.unit != 1 && (bst.voltage as i32) > 0) ==> i32::MIN < (bst.rate as i32) * (bst.voltage as i32) <= i32::MAX
    &&& (bst.rate > 0 && bst.rate != 0xFFFF_FFFF) ==> bif.full_capacity * 3600 <= u64::MAX && bst.remaining * 3600 <= u64::MAX
}

/// The report made from the `_BST` and `_BIF` values.
pub open spec fn is_aml_report(r: BatteryReport, bst: BstInfo, bif: &BifInfo, cycle_count: Option<u32>) -> bool {
    let state = spec_bst_state(bst.state_bits);
    let full = bif.full_capacity;
    let times = spec_aml_times(bst.rate, state, full, bst.remaining);
    &&& r.present && r.state == state && r.is_charging == (state == ChargingState::Charging)
    &&& r.percentage == (if full > 0 && bst.remaining <= full { ((bst.remaining * 100) / full as int) as u8 } else { 99u8 })
    &&& r.design_capacity == bif.design_capacity && r.full_charge == full && r.current_capacity == bst.remaining
    &&& r.capacity_unit == bif.unit && r.unit_name@ == (if bif.unit == 1 { "mWh"@ } else { "mAh"@ })
    &&& r.voltage_mv == bst.voltage && r.rate_mw == spec_aml_rate(bst.rate, bif.unit, bst.voltage, state)
    &&& r.time_to_full_sec == times.0 && r.time_to_empty_sec == times.1 && r.temperature_dc == 0
    &&& r.model@ == bif.model@ && r.serial@ == bif.serial@ && r.oem_info@ == bif.oem@ && r.manufacturer@.len() == 0
    &&& r.technology == spec_technology(bif.battery_type@, bif.technology_code)
    &&& r.design_voltage_mv == bif.design_voltage
    &&& r.design_capacity_warning == bif.warning_capacity && r.design_capacity_low == bif.low_capacity
    &&& r.cycle_count == cycle_count
    &&& r.soh_percent == spec_soh(bif.design_capacity, full)
    &&& r.health == (match spec_soh(bif.design_capacity, full) { Some(p) => Health::Worn(p), None => Health::Good })
    &&& r.via_aml && r.source@ == "AML"@
}

/// Builds the report from the ACPI battery methods' values.
pub fn report_from_aml(bst: BstInfo, bif: BifInfo, cycle_count: Option<u32>) -> (res: BatteryReport)
    requires
        aml_report_ok(bst, &bif),
    ensures
        is_aml_report(res, bst, &bif, cycle_count),
{
    let state = decode_bst_state(bst.state_bits);
    let full_cap = bif.full_capacity;
    let remaining = bst.remaining;
    let rate = bst.rate;
    let unit = bif.unit;
    let unit_name = if unit == 1 { "mWh" } else { "mAh" };
    let percentage: u8 = if full_cap > 0 && remaining <= full_cap { ((remaining * 100) / full_cap) as u8 } else { 99 };
    let rate_mw: i32 = if rate == 0 || rate == 0xFFFF_FFFF || rate == 0x7FFF_FFFF {
        0
    } else if unit == 1 {
        if state == ChargingState::Charging {
            rate as i32
        } else if state == ChargingState::Discharging {
            -(rate as i32)
        } else {
            0
        }
    } else {
        let v = bst.voltage as i32;
        if v > 0 {
            let p = (rate as i32) * v;
            let mw = if p >= 0 { p / 1000 } else { -((-p) / 1000) };
            if state == ChargingState::Charging {
                mw
            } else if state == ChargingState::Discharging {
                -mw
            } else {
                0
            }
        } else {
            0
        }
    };
    let (time_to_full, time_to_empty) = if rate > 0 && rate != 0xFFFF_FFFF {
        if state == ChargingState::Charging && full_cap > remaining {
            let secs = (full_cap - remaining) * 3600 / rate;
            (secs as u32, 0u32)
        } else if state == ChargingState::Discharging && remaining > 0 {
            let secs = (remaining * 3600) / rate;
            (0u32, secs as u32)
        } else {
            (0u32, 0u32)
        }
    } else {
        (0u32, 0u32)
    };
    let soh = soh(bif.design_capacity, full_cap);
    let health = match soh {
        Some(p) => Health::Worn(p),
        None => Health::Good,
    };
    let technology = technology_from_type(bif.battery_type.as_str(), bif.technology_code);
    BatteryReport {
        present: true,
        percentage,
        state,
        is_charging: state == ChargingState::Charging,
        health,
        design_capacity: bif.design_capacity,
        full_charge: full_cap,
        current_capacity: remaining,
        capacity_unit: unit,
        unit_name,
        voltage_mv: bst.voltage,
        rate_mw,
        time_to_full_sec: time_to_full,
        time_to_empty_sec: time_to_empty,
        temperature_dc: 0,
        model: bif.model,
        serial: bif.serial,
        oem_info: bif.oem,
        manufacturer: String::new(),
        technology,
        design_voltage_mv: bif.design_voltage,
        design_capacity_warning: bif.warning_capacity,
        design_capacity_low: bif.low_capacity,
        cycle_count,
        soh_percent: soh,
        via_aml: true,
        source: "AML",
    }
}

/// `H:MM:SS` (or `M:SS` under an hour); `--:--` for zero or an unknown time.
pub open spec fn spec_format_duration(secs: u32) -> Seq<char> {
    if secs == 0 || secs == 0xFFFF_FFFF {
        "--:--"@
    } else if secs / 3600 > 0 {
        dec((secs / 3600) as nat) + ":"@ + dec_pad(((secs / 60) % 60) as nat, 2) + ":"@ + dec_pad((secs % 60) as nat, 2)
    } else {
        dec(((secs / 60) % 60) as nat) + ":"@ + dec_pad((secs % 60) as nat, 2)
    }
}

pub fn format_duration(secs: u32) -> (res: String)
    ensures
        res@ == spec_format_duration(secs),
{
    if secs == 0 || secs == 0xFFFF_FFFF {
        return string_of("--:--");
    }
    let h = secs / 3600;
    let m = (secs / 60) % 60;
    let sec = secs % 60;
    let mut s = String::new();
    if h > 0 {
        push_dec(&mut s, h as u64);
        push_str(&mut s, ":");
        push_dec_pad(&mut s, m as u64, 2);
        push_str(&mut s, ":");
        push_dec_pad(&mut s, sec as u64, 2);
    } else {
        push_dec(&mut s, m as u64);
        push_str(&mut s, ":");
        push_dec_pad(&mut s, sec as u64, 2);
    }
    assert(s@ =~= spec_format_duration(secs));
    s
}

/// A bar of `width` cells, `[████░░░░]`, filled in proportion to `pct` (at most 100).
pub open spec fn spec_build_bar(pct: u8, width: nat) -> Seq<char> {
    let p: nat = if pct > 100 { 100 } else { pct as nat };
    let filled: nat = (p * width) / 100;
    seq!['['] + repeat('\u{2588}', filled) + repeat('\u{2591}', (width - filled) as nat) + seq![']']
}

pub fn build_bar(pct: u8, width: usize) -> (res: String)
    requires
        width <= usize::MAX / 100,
    ensures
        res@ == spec_build_bar(pct, width as nat),
{
    let p: usize = if pct > 100 { 100 } else { pct as usize };
    assert(p * width <= 100 * width) by (nonlinear_arith)
        requires p <= 100;
    let filled = (p * width) / 100;
    assert(filled <= width) by (nonlinear_arith)
        requires filled == (p * width) / 100, p <= 100;
    let mut s = String::new();
    push_char(&mut s, '[');
    let mut i: usize = 0;
    while i < width
        invariant
            i <= width,
            filled <= width,
            s@ == seq!['['] + (if i <= filled { repeat('\u{2588}', i as nat) } else {
                repeat('\u{2588}', filled as nat) + repeat('\u{2591}', (i - filled) as nat)
            }),
        decreases width - i,
    {
        let ghost prev = s@;
        push_char(&mut s, if i < filled { '\u{2588}' } else { '\u{2591}' });
        proof {
            if i < filled {
                assert(repeat('\u{2588}', (i + 1) as nat) == repeat('\u{2588}', i as nat).push('\u{2588}'));
                assert(s@ =~= seq!['['] + repeat('\u{2588}', (i + 1) as nat));
            } else {
                assert(repeat('\u{2591}', (i + 1 - filled) as nat) == repeat('\u{2591}', (i - filled) as nat).push('\u{2591}'));
                assert(repeat('\u{2591}', 0) =~= Seq::<char>::empty());
                assert(s@ =~= seq!['['] + (repeat('\u{2588}', filled as nat) + repeat('\u{2591}', (i + 1 - filled) as nat)));
            }
        }
        i = i + 1;
    }
    push_char(&mut s, ']');
    assert(s@ =~= spec_build_bar(pct, width as nat));
    s
}

/// The colour name suggested for a bar at `pct` percent.
pub fn bar_color(pct: u8) -> (res: &'static str)
    ensures
        pct >= 60 ==> res@ == "SUCCESS"@,
        25 <= pct < 60 ==> res@ == "GOLD"@,
        10 <= pct < 25 ==> res@ == "LOVE"@,
        pct < 10 ==> res@ == "ERROR"@,
{
    if pct >= 60 {
        "SUCCESS"
    } else if pct >= 25 {
        "GOLD"
    } else if pct >= 10 {
        "LOVE"
    } else {
        "ERROR"
    }
}

/// A quantity given in thousandths (milliwatts, millivolts) as units with two decimals:
/// `U.hh`, hundredths truncated.
pub open spec fn milli_units(mw: nat) -> Seq<char> {
    dec(mw / 1000) + "."@ + dec_pad((mw % 1000) / 10, 2)
}

/// The one-line summary: percentage, state, power, time left and source.
pub open spec fn spec_brief(r: BatteryReport) -> Seq<char> {
    let dt = if r.time_to_empty_sec > 0 && r.state == ChargingState::Discharging {
        spec_format_duration(r.time_to_empty_sec)
    } else if r.time_to_full_sec > 0 && r.state == ChargingState::Charging {
        spec_format_duration(r.time_to_full_sec)
    } else {
        "--:--"@
    };
    let rate = if r.rate_mw > 0 {
        "+"@ + milli_units(r.rate_mw as nat) + "W"@
    } else if r.rate_mw < 0 {
        "-"@ + milli_units((-r.rate_mw) as nat) + "W"@
    } else {
        "0.00W"@
    };
    "bat: "@ + dec(r.percentage as nat) + "% "@ + spec_state_name(r.state) + " "@ + rate + " "@ + dt + " ("@
        + r.source@ + ")"@
}

fn push_milli_units(s: &mut String, mw: u32)
    ensures
        final(s)@ == old(s)@ + milli_units(mw as nat),
{
    push_dec(s, (mw / 1000) as u64);
    push_str(s, ".");
    push_dec_pad(s, ((mw % 1000) / 10) as u64, 2);
}

/// The one-line summary of a present battery; nothing when there is none.
pub fn print_report_brief(r: &BatteryReport) -> (res: Option<String>)
    requires
        r.rate_mw != i32::MIN,
    ensures
        !r.present ==> res is None,
        r.present ==> (res matches Some(s) && s@ == spec_brief(*r)),
{
    if !r.present {
        return None;
    }
    let dt = if r.time_to_empty_sec > 0 && r.state == ChargingState::Discharging {
        format_duration(r.time_to_empty_sec)
    } else if r.time_to_full_sec > 0 && r.state == ChargingState::Charging {
        format_duration(r.time_to_full_sec)
    } else {
        string_of("--:--")
    };
    let mut rate = String::new();
    if r.rate_mw > 0 {
        push_str(&mut rate, "+");
        push_milli_units(&mut rate, r.rate_mw as u32);
        push_str(&mut rate, "W");
    } else if r.rate_mw < 0 {
        push_str(&mut rate, "-");
        push_milli_units(&mut rate, (-r.rate_mw) as u32);
        push_str(&mut rate, "W");
    } else {
        push_str(&mut rate, "0.00W");
    }
    let mut s = string_of("bat: ");
    push_dec(&mut s, r.percentage as u64);
    push_str(&mut s, "% ");
    push_str(&mut s, r.state.as_str());
    push_str(&mut s, " ");
    push_str(&mut s, rate.as_str());
    push_str(&mut s, " ");
    push_str(&mut s, dt.as_str());
    push_str(&mut s, " (");
    push_str(&mut s, r.source);
    push_str(&mut s, ")");
    assert(s@ =~= spec_brief(*r));
    Some(s)
}


// ---------------------------------------------------------------------------
// The full report, as coloured text.

/// A labelled line of the report: the label after four spaces, padded to 24 columns, in
/// the subtle colour; then the value in its colour, and the line break.
pub open spec fn field(label: Seq<char>, color: Color, value: Seq<char>) -> Seq<(Color, Seq<char>)> {
    seq![(spec_color(SUBTLE), "    "@ + pad_right(label, 24)), (color, value + "\n"@)]
}

/// The line under a section title.
pub open spec fn rule_line() -> Seq<char> {
    "  \u{2500}\u{2500}\u{2500}\u{2500}\u{2500}\u{2500}\u{2500}\u{2500}\u{2500}\u{2500}\u{2500}\u{2500}\u{2500}\u{2500}\u{2500}\u{2500}\u{2500}\u{2500}\u{2500}\u{2500}\u{2500}\u{2500}\u{2500}\u{2500}\u{2500}\u{2500}\u{2500}\u{2500}\u{2500}\u{2500}\u{2500}\u{2500}\u{2500}\u{2500}\u{2500}\u{2500}\u{2500}\u{2500}\u{2500}\u{2500}\u{2500}\u{2500}\n"@
}

/// A section title, with the rule under it.
pub open spec fn heading(title: Seq<char>) -> Seq<(Color, Seq<char>)> {
    seq![(spec_color(FOAM), "  "@ + title + "\n"@), (spec_color(TEXT), rule_line())]
}

/// A section title after an empty line.
pub open spec fn section(title: Seq<char>) -> Seq<(Color, Seq<char>)> {
    seq![(spec_color(TEXT), "\n"@)] + heading(title)
}

/// The framed title of the report and the empty line after it.
pub open spec fn report_banner() -> Seq<(Color, Seq<char>)> {
    seq![
        (spec_color(IRIS), "\u{2554}\u{2550}\u{2550}\u{2550}\u{2550}\u{2550}\u{2550}\u{2550}\u{2550}\u{2550}\u{2550}\u{2550}\u{2550}\u{2550}\u{2550}\u{2550}\u{2550}\u{2550}\u{2550}\u{2550}\u{2550}\u{2550}\u{2550}\u{2550}\u{2550}\u{2550}\u{2550}\u{2550}\u{2550}\u{2550}\u{2550}\u{2550}\u{2550}\u{2550}\u{2550}\u{2550}\u{2550}\u{2550}\u{2550}\u{2550}\u{2550}\u{2550}\u{2550}\u{2550}\u{2550}\u{2550}\u{2550}\u{2550}\u{2550}\u{2550}\u{2550}\u{2550}\u{2550}\u{2550}\u{2550}\u{2550}\u{2550}\u{2550}\u{2550}\u{2550}\u{2550}\u{2550}\u{2550}\u{2557}\n"@),
        (spec_color(IRIS), "\u{2551}              MESA OS  -  B A T T E R Y   R E P O R T         \u{2551}\n"@),
        (spec_color(IRIS), "\u{255a}\u{2550}\u{2550}\u{2550}\u{2550}\u{2550}\u{2550}\u{2550}\u{2550}\u{2550}\u{2550}\u{2550}\u{2550}\u{2550}\u{2550}\u{2550}\u{2550}\u{2550}\u{2550}\u{2550}\u{2550}\u{2550}\u{2550}\u{2550}\u{2550}\u{2550}\u{2550}\u{2550}\u{2550}\u{2550}\u{2550}\u{2550}\u{2550}\u{2550}\u{2550}\u{2550}\u{2550}\u{2550}\u{2550}\u{2550}\u{2550}\u{2550}\u{2550}\u{2550}\u{2550}\u{2550}\u{2550}\u{2550}\u{2550}\u{2550}\u{2550}\u{2550}\u{2550}\u{2550}\u{2550}\u{2550}\u{2550}\u{2550}\u{2550}\u{2550}\u{2550}\u{2550}\u{2550}\u{255d}\n"@),
        (spec_color(TEXT), "\n"@),
    ]
}

/// A capacity with its unit, or `(unknown)` when it is zero.
pub open spec fn capacity_text(v: u64, unit: Seq<char>) -> Seq<char> {
    if v > 0 { dec(v as nat) + " "@ + unit } else { "(unknown)"@ }
}

/// The colour in which a charging state is shown.
pub open spec fn state_color(s: ChargingState) -> Color {
    match s {
        ChargingState::Charging => spec_color(SUCCESS),
        ChargingState::Discharging => spec_color(FOAM),
        ChargingState::Full => spec_color(SUCCESS),
        ChargingState::NotCharging => spec_color(GOLD),
        _ => spec_color(SUBTLE),
    }
}

/// The colour in which a health verdict is shown.
pub open spec fn health_color(h: Health) -> Color {
    match h {
        Health::Good => spec_color(SUCCESS),
        Health::Worn(p) => if p >= 70 { spec_color(FOAM) } else if p >= 50 { spec_color(GOLD) } else { spec_color(LOVE) },
        _ => spec_color(LOVE),
    }
}

/// The colour of a state-of-health percentage.
pub open spec fn soh_color(soh: u8) -> Color {
    if soh >= 80 {
        spec_color(SUCCESS)
    } else if soh >= 60 {
        spec_color(FOAM)
    } else if soh >= 40 {
        spec_color(GOLD)
    } else {
        spec_color(LOVE)
    }
}

/// A temperature in tenths of a degree, with one decimal: `[-]D.d °C`.
pub open spec fn temperature_text(dc: i32) -> Seq<char> {
    let a: nat = if dc < 0 { (-dc) as nat } else { dc as nat };
    (if dc < 0 { "-"@ } else { Seq::empty() }) + dec(a / 10) + "."@ + dec(a % 10) + " \u{b0}C"@
}

/// The colour of a temperature: below 50 °C, below 65 °C, or hotter.
pub open spec fn temperature_color(dc: i32) -> Color {
    if dc < 500 { spec_color(SUCCESS) } else if dc < 650 { spec_color(GOLD) } else { spec_color(LOVE) }
}

/// Identity of the battery: path, model, serial (when known or asked for) and chemistry.
pub open spec fn report_identity(r: BatteryReport, verbose: bool) -> Seq<(Color, Seq<char>)> {
    heading("Estado de la bater\u{ed}a"@)
        + field("native-path"@, spec_color(TEXT), "BAT0"@)
        + field("model"@, spec_color(TEXT), if r.model@.len() == 0 { "(unknown)"@ } else { r.model@ })
        + (if verbose || r.serial@.len() != 0 {
            field("serial"@, spec_color(TEXT), if r.serial@.len() == 0 { "(none)"@ } else { r.serial@ })
        } else {
            Seq::empty()
        })
        + field("technology"@, spec_color(TEXT), spec_technology_name(r.technology))
}

/// Charging state and percentage, with its bar.
pub open spec fn report_charge(r: BatteryReport) -> Seq<(Color, Seq<char>)> {
    section("Carga"@)
        + field("state"@, state_color(r.state), spec_state_name(r.state))
        + seq![
            (spec_color(SUBTLE), "    "@ + pad_right("percentage"@, 24)),
            (spec_color(TEXT), dec(r.percentage as nat) + "% "@),
            (spec_color(SUBTLE), spec_build_bar(r.percentage, 30) + "\n"@),
        ]
}

/// Design, full and present capacity.
pub open spec fn report_energy(r: BatteryReport) -> Seq<(Color, Seq<char>)> {
    section("Energ\u{ed}a"@)
        + field("energy-full-design"@, spec_color(TEXT), capacity_text(r.design_capacity, r.unit_name@))
        + field("energy-full"@, spec_color(TEXT), capacity_text(r.full_charge, r.unit_name@))
        + field("energy-now"@, spec_color(TEXT), capacity_text(r.current_capacity, r.unit_name@))
}

/// Voltage, power and design voltage.
pub open spec fn report_electric(r: BatteryReport) -> Seq<(Color, Seq<char>)> {
    let rate: nat = if r.rate_mw < 0 { (-r.rate_mw) as nat } else { r.rate_mw as nat };
    section("El\u{e9}ctrico"@)
        + field("voltage"@, spec_color(TEXT),
            if r.voltage_mv > 0 { milli_units(r.voltage_mv as nat) + " V"@ } else { "(unknown)"@ })
        + field("energy-rate"@, spec_color(TEXT),
            if r.rate_mw > 0 {
                "+"@ + milli_units(rate) + " W (charging)"@
            } else if r.rate_mw < 0 {
                "-"@ + milli_units(rate) + " W (discharging)"@
            } else {
                "0.00 W (idle)"@
            })
        + field("design-voltage"@, spec_color(TEXT),
            if r.design_voltage_mv > 0 {
                milli_units(r.design_voltage_mv as nat) + " V"@
            } else if r.voltage_mv > 0 {
                milli_units(r.voltage_mv as nat) + " V (current)"@
            } else {
                "(unknown)"@
            })
}

/// The estimated time to full or to empty, depending on the state.
pub open spec fn report_time(r: BatteryReport) -> Seq<(Color, Seq<char>)> {
    section("Tiempo estimado"@) + match r.state {
        ChargingState::Charging => field("time-to-full"@, spec_color(SUCCESS), spec_format_duration(r.time_to_full_sec)),
        ChargingState::Discharging => field("time-to-empty"@,
            if r.percentage <= 15 { spec_color(LOVE) } else { spec_color(FOAM) },
            spec_format_duration(r.time_to_empty_sec)),
        ChargingState::Full => field("time-to-full"@, spec_color(SUCCESS), "0:00 (fully charged)"@),
        _ => field("time-to-empty"@, spec_color(TEXT), spec_format_duration(r.time_to_empty_sec)),
    }
}

/// Health, state of health and cycle count.
pub open spec fn report_health(r: BatteryReport, verbose: bool) -> Seq<(Color, Seq<char>)> {
    section("Salud y desgaste"@)
        + field("health"@, health_color(r.health), spec_health_name(r.health))
        + match r.soh_percent {
            Some(soh) => seq![
                (spec_color(SUBTLE), "    "@ + pad_right("capacity (SOH)"@, 24)),
                (soh_color(soh), dec(soh as nat) + "% "@),
                (spec_color(SUBTLE), spec_build_bar(soh, 30) + "\n"@),
            ],
            None => Seq::empty(),
        }
        + match r.cycle_count {
            Some(c) => field("cycle-count"@, spec_color(TEXT), dec(c as nat)),
            None => if verbose {
                field("cycle-count"@, spec_color(MUTED), "(not exposed by firmware)"@)
            } else {
                Seq::empty()
            },
        }
}

/// The temperature, when one was read.
pub open spec fn report_thermal(r: BatteryReport) -> Seq<(Color, Seq<char>)> {
    if r.temperature_dc != 0 {
        section("T\u{e9}rmico"@) + field("temperature"@, temperature_color(r.temperature_dc), temperature_text(r.temperature_dc))
    } else {
        Seq::empty()
    }
}

/// Where the data came from, and in verbose mode the OEM data and alarm levels.
pub open spec fn report_meta(r: BatteryReport, verbose: bool) -> Seq<(Color, Seq<char>)> {
    section("Metadatos"@)
        + field("source"@, if r.via_aml { spec_color(SUCCESS) } else { spec_color(FOAM) },
            r.source@ + " ("@ + (if r.via_aml { "ACPI _BST/_BIF"@ } else if r.source@ == "EC"@ {
                "Embedded Controller"@
            } else {
                "n/a"@
            }) + ")"@)
        + (if verbose {
            (if r.oem_info@.len() != 0 { field("oem-info"@, spec_color(TEXT), r.oem_info@) } else { Seq::empty() })
                + (if r.design_capacity_warning > 0 {
                    field("warning-capacity"@, spec_color(TEXT), dec(r.design_capacity_warning as nat) + " "@ + r.unit_name@)
                } else {
                    Seq::empty()
                })
                + (if r.design_capacity_low > 0 {
                    field("low-capacity"@, spec_color(TEXT), dec(r.design_capacity_low as nat) + " "@ + r.unit_name@)
                } else {
                    Seq::empty()
                })
        } else {
            Seq::empty()
        })
        + seq![(spec_color(TEXT), "\n"@)]
}

/// The whole report: the banner, then either the notice that no battery was found or
/// the sections on identity, charge, energy, electrics, time, health, temperature and
/// source.
pub open spec fn spec_report(r: BatteryReport, verbose: bool) -> Seq<(Color, Seq<char>)> {
    if !r.present {
        report_banner() + seq![
            (spec_color(GOLD), "  [WARN] No se ha detectado ninguna bater\u{ed}a.\n"@),
            (spec_color(SUBTLE), "         Probablemente est\u{e1}s en un PC de escritorio o una VM.\n"@),
            (spec_color(TEXT), "\n"@),
        ] + (if verbose { seq![(spec_color(TEXT), "  Fuente de datos: "@ + r.source@ + "\n"@)] } else { Seq::empty() })
    } else {
        report_banner() + report_identity(r, verbose) + report_charge(r) + report_energy(r) + report_electric(r)
            + report_time(r) + report_health(r, verbose) + report_thermal(r) + report_meta(r, verbose)
    }
}


fn emit_field(out: &mut Vec<Styled>, label: &str, color: Color, value: String)
    ensures
        styled_view(final(out)@) == styled_view(old(out)@) + field(label@, color, value@),
{
    let mut l = string_of("    ");
    push_padded(&mut l, label, 24);
    emit(out, color_of(SUBTLE), l);
    let mut v = value;
    push_str(&mut v, "\n");
    emit(out, color, v);
    assert(styled_view(out@) =~= styled_view(old(out)@) + field(label@, color, value@));
}

fn emit_heading(out: &mut Vec<Styled>, title: &str)
    ensures
        styled_view(final(out)@) == styled_view(old(out)@) + heading(title@),
{
    let mut t = string_of("  ");
    push_str(&mut t, title);
    push_str(&mut t, "\n");
    emit(out, color_of(FOAM), t);
    emit_str(out, color_of(TEXT), "  \u{2500}\u{2500}\u{2500}\u{2500}\u{2500}\u{2500}\u{2500}\u{2500}\u{2500}\u{2500}\u{2500}\u{2500}\u{2500}\u{2500}\u{2500}\u{2500}\u{2500}\u{2500}\u{2500}\u{2500}\u{2500}\u{2500}\u{2500}\u{2500}\u{2500}\u{2500}\u{2500}\u{2500}\u{2500}\u{2500}\u{2500}\u{2500}\u{2500}\u{2500}\u{2500}\u{2500}\u{2500}\u{2500}\u{2500}\u{2500}\u{2500}\u{2500}\n");
    assert(styled_view(out@) =~= styled_view(old(out)@) + heading(title@));
}

fn emit_section(out: &mut Vec<Styled>, title: &str)
    ensures
        styled_view(final(out)@) == styled_view(old(out)@) + section(title@),
{
    emit_str(out, color_of(TEXT), "\n");
    emit_heading(out, title);
    assert(styled_view(out@) =~= styled_view(old(out)@) + section(title@));
}

/// A percentage followed by its bar: label, value and bar.
fn emit_percent_bar(out: &mut Vec<Styled>, label: &str, color: Color, pct: u8)
    ensures
        styled_view(final(out)@) == styled_view(old(out)@) + seq![
            (spec_color(SUBTLE), "    "@ + pad_right(label@, 24)),
            (color, dec(pct as nat) + "% "@),
            (spec_color(SUBTLE), spec_build_bar(pct, 30) + "\n"@),
        ],
{
    let mut l = string_of("    ");
    push_padded(&mut l, label, 24);
    emit(out, color_of(SUBTLE), l);
    let mut v = String::new();
    push_dec(&mut v, pct as u64);
    push_str(&mut v, "% ");
    emit(out, color, v);
    let mut b = build_bar(pct, 30);
    push_str(&mut b, "\n");
    emit(out, color_of(SUBTLE), b);
    assert(styled_view(out@) =~= styled_view(old(out)@) + seq![
        (spec_color(SUBTLE), "    "@ + pad_right(label@, 24)),
        (color, dec(pct as nat) + "% "@),
        (spec_color(SUBTLE), spec_build_bar(pct, 30) + "\n"@),
    ]);
}

fn capacity_string(v: u64, unit: &str) -> (res: String)
    ensures
        res@ == capacity_text(v, unit@),
{
    if v > 0 {
        let mut s = String::new();
        push_dec(&mut s, v);
        push_str(&mut s, " ");
        push_str(&mut s, unit);
        s
    } else {
        string_of("(unknown)")
    }
}

fn milli_string(m: u32, suffix: &str) -> (res: String)
    ensures
        res@ == milli_units(m as nat) + suffix@,
{
    let mut s = String::new();
    push_milli_units(&mut s, m);
    push_str(&mut s, suffix);
    s
}

fn emit_banner(out: &mut Vec<Styled>)
    ensures
        styled_view(final(out)@) == styled_view(old(out)@) + report_banner(),
{
    emit_str(out, color_of(IRIS), "\u{2554}\u{2550}\u{2550}\u{2550}\u{2550}\u{2550}\u{2550}\u{2550}\u{2550}\u{2550}\u{2550}\u{2550}\u{2550}\u{2550}\u{2550}\u{2550}\u{2550}\u{2550}\u{2550}\u{2550}\u{2550}\u{2550}\u{2550}\u{2550}\u{2550}\u{2550}\u{2550}\u{2550}\u{2550}\u{2550}\u{2550}\u{2550}\u{2550}\u{2550}\u{2550}\u{2550}\u{2550}\u{2550}\u{2550}\u{2550}\u{2550}\u{2550}\u{2550}\u{2550}\u{2550}\u{2550}\u{2550}\u{2550}\u{2550}\u{2550}\u{2550}\u{2550}\u{2550}\u{2550}\u{2550}\u{2550}\u{2550}\u{2550}\u{2550}\u{2550}\u{2550}\u{2550}\u{2550}\u{2557}\n");
    emit_str(out, color_of(IRIS), "\u{2551}              MESA OS  -  B A T T E R Y   R E P O R T         \u{2551}\n");
    emit_str(out, color_of(IRIS), "\u{255a}\u{2550}\u{2550}\u{2550}\u{2550}\u{2550}\u{2550}\u{2550}\u{2550}\u{2550}\u{2550}\u{2550}\u{2550}\u{2550}\u{2550}\u{2550}\u{2550}\u{2550}\u{2550}\u{2550}\u{2550}\u{2550}\u{2550}\u{2550}\u{2550}\u{2550}\u{2550}\u{2550}\u{2550}\u{2550}\u{2550}\u{2550}\u{2550}\u{2550}\u{2550}\u{2550}\u{2550}\u{2550}\u{2550}\u{2550}\u{2550}\u{2550}\u{2550}\u{2550}\u{2550}\u{2550}\u{2550}\u{2550}\u{2550}\u{2550}\u{2550}\u{2550}\u{2550}\u{2550}\u{2550}\u{2550}\u{2550}\u{2550}\u{2550}\u{2550}\u{2550}\u{2550}\u{2550}\u{255d}\n");
    emit_str(out, color_of(TEXT), "\n");
    assert(styled_view(out@) =~= styled_view(old(out)@) + report_banner());
}

fn emit_identity(out: &mut Vec<Styled>, r: &BatteryReport, verbose: bool)
    ensures
        styled_view(final(out)@) == styled_view(old(out)@) + report_identity(*r, verbose),
{
    let ghost v0 = styled_view(out@);
    emit_heading(out, "Estado de la bater\u{ed}a");
    emit_field(out, "native-path", color_of(TEXT), string_of("BAT0"));
    let model = if r.model.as_str().is_empty() { string_of("(unknown)") } else { r.model.clone() };
    emit_field(out, "model", color_of(TEXT), model);
    let ghost v1 = styled_view(out@);
    if verbose || !r.serial.as_str().is_empty() {
        let serial = if r.serial.as_str().is_empty() { string_of("(none)") } else { r.serial.clone() };
        emit_field(out, "serial", color_of(TEXT), serial);
    } else {
        assert(v1 + Seq::<(Color, Seq<char>)>::empty() =~= v1);
    }
    emit_field(out, "technology", color_of(TEXT), string_of(r.technology.as_str()));
    assert(styled_view(out@) =~= v0 + report_identity(*r, verbose));
}

fn emit_charge(out: &mut Vec<Styled>, r: &BatteryReport)
    ensures
        styled_view(final(out)@) == styled_view(old(out)@) + report_charge(*r),
{
    let ghost v0 = styled_view(out@);
    emit_section(out, "Carga");
    let color = match r.state {
        ChargingState::Charging => color_of(SUCCESS),
        ChargingState::Discharging => color_of(FOAM),
        ChargingState::Full => color_of(SUCCESS),
        ChargingState::NotCharging => color_of(GOLD),
        _ => color_of(SUBTLE),
    };
    emit_field(out, "state", color, string_of(r.state.as_str()));
    emit_percent_bar(out, "percentage", color_of(TEXT), r.percentage);
    assert(styled_view(out@) =~= v0 + report_charge(*r));
}

fn emit_energy(out: &mut Vec<Styled>, r: &BatteryReport)
    ensures
        styled_view(final(out)@) == styled_view(old(out)@) + report_energy(*r),
{
    let ghost v0 = styled_view(out@);
    emit_section(out, "Energ\u{ed}a");
    emit_field(out, "energy-full-design", color_of(TEXT), capacity_string(r.design_capacity, r.unit_name));
    emit_field(out, "energy-full", color_of(TEXT), capacity_string(r.full_charge, r.unit_name));
    emit_field(out, "energy-now", color_of(TEXT), capacity_string(r.current_capacity, r.unit_name));
    assert(styled_view(out@) =~= v0 + report_energy(*r));
}

fn emit_electric(out: &mut Vec<Styled>, r: &BatteryReport)
    ensures
        styled_view(final(out)@) == styled_view(old(out)@) + report_electric(*r),
{
    let ghost v0 = styled_view(out@);
    emit_section(out, "El\u{e9}ctrico");
    let voltage = if r.voltage_mv > 0 { milli_string(r.voltage_mv, " V") } else { string_of("(unknown)") };
    emit_field(out, "voltage", color_of(TEXT), voltage);
    let rate = if r.rate_mw > 0 {
        let mut s = string_of("+");
        push_str(&mut s, milli_string(r.rate_mw as u32, " W (charging)").as_str());
        assert(s@ =~= "+"@ + milli_units(r.rate_mw as nat) + " W (charging)"@);
        s
    } else if r.rate_mw < 0 {
        let a: u32 = (0i64 - r.rate_mw as i64) as u32;
        assert(a == -r.rate_mw);
        let mut s = string_of("-");
        push_str(&mut s, milli_string(a, " W (discharging)").as_str());
        assert(s@ =~= "-"@ + milli_units((-r.rate_mw) as nat) + " W (discharging)"@);
        s
    } else {
        string_of("0.00 W (idle)")
    };
    emit_field(out, "energy-rate", color_of(TEXT), rate);
    let design = if r.design_voltage_mv > 0 {
        milli_string(r.design_voltage_mv, " V")
    } else if r.voltage_mv > 0 {
        milli_string(r.voltage_mv, " V (current)")
    } else {
        string_of("(unknown)")
    };
    emit_field(out, "design-voltage", color_of(TEXT), design);
    assert(styled_view(out@) =~= v0 + report_electric(*r));
}

fn emit_time(out: &mut Vec<Styled>, r: &BatteryReport)
    ensures
        styled_view(final(out)@) == styled_view(old(out)@) + report_time(*r),
{
    let ghost v0 = styled_view(out@);
    emit_section(out, "Tiempo estimado");
    match r.state {
        ChargingState::Charging => {
            emit_field(out, "time-to-full", color_of(SUCCESS), format_duration(r.time_to_full_sec));
        },
        ChargingState::Discharging => {
            let color = if r.percentage <= 15 { color_of(LOVE) } else { color_of(FOAM) };
            emit_field(out, "time-to-empty", color, format_duration(r.time_to_empty_sec));
        },
        ChargingState::Full => {
            emit_field(out, "time-to-full", color_of(SUCCESS), string_of("0:00 (fully charged)"));
        },
        _ => {
            emit_field(out, "time-to-empty", color_of(TEXT), format_duration(r.time_to_empty_sec));
        },
    }
    assert(styled_view(out@) =~= v0 + report_time(*r));
}

fn emit_health(out: &mut Vec<Styled>, r: &BatteryReport, verbose: bool)
    ensures
        styled_view(final(out)@) == styled_view(old(out)@) + report_health(*r, verbose),
{
    let ghost v0 = styled_view(out@);
    emit_section(out, "Salud y desgaste");
    let hcolor = match r.health {
        Health::Good => color_of(SUCCESS),
        Health::Worn(p) => if p >= 70 { color_of(FOAM) } else if p >= 50 { color_of(GOLD) } else { color_of(LOVE) },
        _ => color_of(LOVE),
    };
    emit_field(out, "health", hcolor, string_of(r.health.as_str()));
    let ghost v1 = styled_view(out@);
    match r.soh_percent {
        Some(soh) => {
            let c = if soh >= 80 {
                color_of(SUCCESS)
            } else if soh >= 60 {
                color_of(FOAM)
            } else if soh >= 40 {
                color_of(GOLD)
            } else {
                color_of(LOVE)
            };
            emit_percent_bar(out, "capacity (SOH)", c, soh);
        },
        None => {
            assert(v1 + Seq::<(Color, Seq<char>)>::empty() =~= v1);
        },
    }
    let ghost v2 = styled_view(out@);
    match r.cycle_count {
        Some(c) => {
            let mut s = String::new();
            push_dec(&mut s, c as u64);
            emit_field(out, "cycle-count", color_of(TEXT), s);
        },
        None => {
            if verbose {
                emit_field(out, "cycle-count", color_of(MUTED), string_of("(not exposed by firmware)"));
            } else {
                assert(v2 + Seq::<(Color, Seq<char>)>::empty() =~= v2);
            }
        },
    }
    assert(styled_view(out@) =~= v0 + report_health(*r, verbose));
}

fn emit_thermal(out: &mut Vec<Styled>, r: &BatteryReport)
    ensures
        styled_view(final(out)@) == styled_view(old(out)@) + report_thermal(*r),
{
    let ghost v0 = styled_view(out@);
    if r.temperature_dc != 0 {
        emit_section(out, "T\u{e9}rmico");
        let dc = r.temperature_dc;
        let color = if dc < 500 { color_of(SUCCESS) } else if dc < 650 { color_of(GOLD) } else { color_of(LOVE) };
        let a: u32 = if dc < 0 { (0i64 - dc as i64) as u32 } else { dc as u32 };
        let mut t = String::new();
        if dc < 0 {
            push_str(&mut t, "-");
        }
        push_dec(&mut t, (a / 10) as u64);
        push_str(&mut t, ".");
        push_dec(&mut t, (a % 10) as u64);
        push_str(&mut t, " \u{b0}C");
        assert(t@ =~= temperature_text(dc));
        emit_field(out, "temperature", color, t);
    } else {
        assert(v0 + Seq::<(Color, Seq<char>)>::empty() =~= v0);
    }
    assert(styled_view(out@) =~= v0 + report_thermal(*r));
}

fn emit_meta(out: &mut Vec<Styled>, r: &BatteryReport, verbose: bool)
    ensures
        styled_view(final(out)@) == styled_view(old(out)@) + report_meta(*r, verbose),
{
    let ghost v0 = styled_view(out@);
    emit_section(out, "Metadatos");
    let color = if r.via_aml { color_of(SUCCESS) } else { color_of(FOAM) };
    let mut src = string_of(r.source);
    push_str(&mut src, " (");
    if r.via_aml {
        push_str(&mut src, "ACPI _BST/_BIF");
    } else if str_eq(r.source, "EC") {
        push_str(&mut src, "Embedded Controller");
    } else {
        push_str(&mut src, "n/a");
    }
    push_str(&mut src, ")");
    emit_field(out, "source", color, src);
    let ghost v1 = styled_view(out@);
    if verbose {
        if !r.oem_info.as_str().is_empty() {
            emit_field(out, "oem-info", color_of(TEXT), r.oem_info.clone());
        } else {
            assert(v1 + Seq::<(Color, Seq<char>)>::empty() =~= v1);
        }
        let ghost v2 = styled_view(out@);
        if r.design_capacity_warning > 0 {
            let mut s = String::new();
            push_dec(&mut s, r.design_capacity_warning);
            push_str(&mut s, " ");
            push_str(&mut s, r.unit_name);
            emit_field(out, "warning-capacity", color_of(TEXT), s);
        } else {
            assert(v2 + Seq::<(Color, Seq<char>)>::empty() =~= v2);
        }
        let ghost v3 = styled_view(out@);
        if r.design_capacity_low > 0 {
            let mut s = String::new();
            push_dec(&mut s, r.design_capacity_low);
            push_str(&mut s, " ");
            push_str(&mut s, r.unit_name);
            emit_field(out, "low-capacity", color_of(TEXT), s);
        } else {
            assert(v3 + Seq::<(Color, Seq<char>)>::empty() =~= v3);
        }
    } else {
        assert(v1 + Seq::<(Color, Seq<char>)>::empty() =~= v1);
    }
    emit_str(out, color_of(TEXT), "\n");
    assert(styled_view(out@) =~= v0 + report_meta(*r, verbose));
}

/// The full battery report as coloured text, in the layout of `upower -i`: every field
/// the report holds, the optional ones only when known (or, some, when `verbose`).
pub fn print_report(r: &BatteryReport, verbose: bool) -> (res: Vec<Styled>)
    ensures
        styled_view(res@) == spec_report(*r, verbose),
{
    let mut out: Vec<Styled> = Vec::new();
    emit_banner(&mut out);
    if !r.present {
        emit_str(&mut out, color_of(GOLD), "  [WARN] No se ha detectado ninguna bater\u{ed}a.\n");
        emit_str(&mut out, color_of(SUBTLE), "         Probablemente est\u{e1}s en un PC de escritorio o una VM.\n");
        emit_str(&mut out, color_of(TEXT), "\n");
        let ghost v1 = styled_view(out@);
        if verbose {
            let mut s = string_of("  Fuente de datos: ");
            push_str(&mut s, r.source);
            push_str(&mut s, "\n");
            emit(&mut out, color_of(TEXT), s);
        } else {
            assert(v1 + Seq::<(Color, Seq<char>)>::empty() =~= v1);
        }
        assert(styled_view(out@) =~= spec_report(*r, verbose));
        return out;
    }
    emit_identity(&mut out, r, verbose);
    emit_charge(&mut out, r);
    emit_energy(&mut out, r);
    emit_electric(&mut out, r);
    emit_time(&mut out, r);
    emit_health(&mut out, r, verbose);
    emit_thermal(&mut out, r);
    emit_meta(&mut out, r, verbose);
    assert(styled_view(out@) =~= spec_report(*r, verbose));
    out
}

} // verus!
