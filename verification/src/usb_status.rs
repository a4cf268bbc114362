//! The USB status report: the controller, its root-hub ports and the devices enumerated
//! on them, as styled text.
use vstd::prelude::*;
use crate::console::{Color, Styled, emit, emit_str, styled_view};
use crate::text::{alt_hex, dec, hex_char, hex_char_upper, pad_right, push_alt_hex, push_char, push_dec, push_padded, push_str, string_of};
use crate::ui::{color_of, spec_color, ERROR, FOAM, GOLD, IRIS, MUTED, SUBTLE, SUCCESS, TEXT};
use crate::usb::{UsbDeviceState, UsbPhase};
use crate::xhci_port::PortStatus;

verus! {

/// The controller as its capability and status registers describe it.
#[derive(Debug, Clone, Copy, PartialEq, Eq, Structural)]
pub struct UsbControllerInfo {
    pub bar0: u64,
    pub context_64: bool,
    pub max_slots: u8,
    pub num_ports: u8,
    pub dboff: u32,
    pub addr64: bool,
    pub halted: bool,
    pub host_error: bool,
}

/// The number of enumeration steps a phase has completed (none for a failed device).
pub open spec fn phase_rank(p: UsbPhase) -> nat {
    match p {
        UsbPhase::Detected => 0,
        UsbPhase::SlotEnabled => 1,
        UsbPhase::AddressAssigned => 2,
        UsbPhase::DeviceDescriptorRead => 3,
        UsbPhase::ConfigDescriptorRead => 4,
        UsbPhase::EndpointsConfigured => 5,
        UsbPhase::SetConfigurationDone => 6,
        UsbPhase::Failed => 0,
    }
}

pub fn rank_of(p: UsbPhase) -> (res: u8)
    ensures
        res == phase_rank(p),
{
    match p {
        UsbPhase::Detected => 0,
        UsbPhase::SlotEnabled => 1,
        UsbPhase::AddressAssigned => 2,
        UsbPhase::DeviceDescriptorRead => 3,
        UsbPhase::ConfigDescriptorRead => 4,
        UsbPhase::EndpointsConfigured => 5,
        UsbPhase::SetConfigurationDone => 6,
        UsbPhase::Failed => 0,
    }
}

pub open spec fn spec_phase_name(p: UsbPhase) -> Seq<char> {
    match p {
        UsbPhase::Detected => "Detectado"@,
        UsbPhase::SlotEnabled => "Slot OK"@,
        UsbPhase::AddressAssigned => "Direcci\u{f3}n asignada"@,
        UsbPhase::DeviceDescriptorRead => "DevDesc le\u{ed}do"@,
        UsbPhase::ConfigDescriptorRead => "CfgDesc le\u{ed}do"@,
        UsbPhase::EndpointsConfigured => "Endpoints config."@,
        UsbPhase::SetConfigurationDone => "\u{2713} COMPLETAMENTE OPERATIVO"@,
        UsbPhase::Failed => "\u{2717} FALLO"@,
    }
}

pub fn phase_name(p: UsbPhase) -> (res: &'static str)
    ensures
        res@ == spec_phase_name(p),
{
    match p {
        UsbPhase::Detected => "Detectado",
        UsbPhase::SlotEnabled => "Slot OK",
        UsbPhase::AddressAssigned => "Direcci\u{f3}n asignada",
        UsbPhase::DeviceDescriptorRead => "DevDesc le\u{ed}do",
        UsbPhase::ConfigDescriptorRead => "CfgDesc le\u{ed}do",
        UsbPhase::EndpointsConfigured => "Endpoints config.",
        UsbPhase::SetConfigurationDone => "\u{2713} COMPLETAMENTE OPERATIVO",
        UsbPhase::Failed => "\u{2717} FALLO",
    }
}

pub open spec fn spec_phase_color(p: UsbPhase) -> u32 {
    match p {
        UsbPhase::SetConfigurationDone => SUCCESS,
        UsbPhase::Failed => ERROR,
        _ => GOLD,
    }
}

/// The speed of a root-hub port, spelt out.
pub open spec fn spec_port_speed_name(s: u8) -> Seq<char> {
    if s == 1 { "Full Speed (12 Mb/s)"@ } else if s == 2 { "Low Speed  (1.5 Mb/s)"@ } else if s == 3 { "High Speed (480 Mb/s)"@ }
    else if s == 4 { "SuperSpeed (5 Gb/s)"@ } else if s == 5 { "SuperSpeed+ (10 Gb/s)"@ } else { "Desconocida"@ }
}

pub fn port_speed_name(s: u8) -> (res: &'static str)
    ensures
        res@ == spec_port_speed_name(s),
{
    if s == 1 { "Full Speed (12 Mb/s)" } else if s == 2 { "Low Speed  (1.5 Mb/s)" } else if s == 3 { "High Speed (480 Mb/s)" }
    else if s == 4 { "SuperSpeed (5 Gb/s)" } else if s == 5 { "SuperSpeed+ (10 Gb/s)" } else { "Desconocida" }
}

/// The speed of a device, abbreviated.
pub open spec fn spec_speed_short(s: u8) -> Seq<char> {
    if s == 1 { "FS"@ } else if s == 2 { "LS"@ } else if s == 3 { "HS"@ } else if s == 4 { "SS"@ } else if s == 5 { "SS+"@ } else { "?"@ }
}

pub fn speed_short(s: u8) -> (res: &'static str)
    ensures
        res@ == spec_speed_short(s),
{
    if s == 1 { "FS" } else if s == 2 { "LS" } else if s == 3 { "HS" } else if s == 4 { "SS" } else if s == 5 { "SS+" } else { "?" }
}

/// The name of a USB device class.
pub open spec fn spec_class_name(c: u8) -> Seq<char> {
    if c == 0x00 { "(clase definida por interfaz)"@ } else if c == 0x01 { "Audio"@ } else if c == 0x02 { "CDC/Comunicaciones"@ }
    else if c == 0x03 { "HID (Teclado/Rat\u{f3}n)"@ } else if c == 0x05 { "Physical"@ } else if c == 0x06 { "Imagen"@ }
    else if c == 0x07 { "Impresora"@ } else if c == 0x08 { "Mass Storage (Disco)"@ } else if c == 0x09 { "Hub USB"@ }
    else if c == 0x0A { "CDC-Data"@ } else if c == 0x0B { "Smart Card"@ } else if c == 0x0E { "Video"@ }
    else if c == 0x0F { "Personal Healthcare"@ } else if c == 0x10 { "Audio/Video"@ } else if c == 0xE0 { "Wireless Controller"@ }
    else if c == 0xEF { "Miscel\u{e1}neo"@ } else if c == 0xFF { "Vendor-Specific"@ } else { "Desconocido"@ }
}

pub fn class_name(c: u8) -> (res: &'static str)
    ensures
        res@ == spec_class_name(c),
{
    if c == 0x00 { "(clase definida por interfaz)" } else if c == 0x01 { "Audio" } else if c == 0x02 { "CDC/Comunicaciones" }
    else if c == 0x03 { "HID (Teclado/Rat\u{f3}n)" } else if c == 0x05 { "Physical" } else if c == 0x06 { "Imagen" }
    else if c == 0x07 { "Impresora" } else if c == 0x08 { "Mass Storage (Disco)" } else if c == 0x09 { "Hub USB" }
    else if c == 0x0A { "CDC-Data" } else if c == 0x0B { "Smart Card" } else if c == 0x0E { "Video" }
    else if c == 0x0F { "Personal Healthcare" } else if c == 0x10 { "Audio/Video" } else if c == 0xE0 { "Wireless Controller" }
    else if c == 0xEF { "Miscel\u{e1}neo" } else if c == 0xFF { "Vendor-Specific" } else { "Desconocido" }
}

/// The file system an MBR partition type stands for.
pub open spec fn spec_part_type_name(t: u8) -> Seq<char> {
    if t == 0x0B || t == 0x0C { "FAT32"@ } else if t == 0x83 { "Linux ext"@ } else if t == 0x07 { "NTFS/exFAT"@ } else { "desconocido"@ }
}

pub fn part_type_name(t: u8) -> (res: &'static str)
    ensures
        res@ == spec_part_type_name(t),
{
    if t == 0x0B || t == 0x0C { "FAT32" } else if t == 0x83 { "Linux ext" } else if t == 0x07 { "NTFS/exFAT" } else { "desconocido" }
}

/// `{:2}`: a number right-aligned in two columns.
pub open spec fn dec2(n: nat) -> Seq<char> {
    if n < 10 { seq![' '] + dec(n) } else { dec(n) }
}

fn push_dec2(s: &mut String, n: u64)
    ensures
        final(s)@ == old(s)@ + dec2(n as nat),
{
    if n < 10 {
        push_char(s, ' ');
    }
    push_dec(s, n);
    assert(final(s)@ =~= old(s)@ + dec2(n as nat));
}

/// `{:#06X}` of a 16-bit value: `0x` and four upper-case digits.
pub open spec fn hex4_upper(n: u16) -> Seq<char> {
    seq!['0', 'x', hex_char_upper((n / 4096) as nat), hex_char_upper((n / 256 % 16) as nat), hex_char_upper((n / 16 % 16) as nat),
        hex_char_upper((n % 16) as nat)]
}

/// `{:#04X}` / `{:#04x}` of a byte: `0x` and two digits.
pub open spec fn hex2_upper(n: u8) -> Seq<char> {
    seq!['0', 'x', hex_char_upper((n / 16) as nat), hex_char_upper((n % 16) as nat)]
}

pub open spec fn hex2_lower(n: u8) -> Seq<char> {
    seq!['0', 'x', hex_char((n / 16) as nat), hex_char((n % 16) as nat)]
}

fn upper_digit(d: u16) -> (c: char)
    requires
        d < 16,
    ensures
        c == hex_char_upper(d as nat),
{
    if d < 10 {
        if d == 0 { '0' } else if d == 1 { '1' } else if d == 2 { '2' } else if d == 3 { '3' } else if d == 4 { '4' }
        else if d == 5 { '5' } else if d == 6 { '6' } else if d == 7 { '7' } else if d == 8 { '8' } else { '9' }
    } else if d == 10 { 'A' } else if d == 11 { 'B' } else if d == 12 { 'C' } else if d == 13 { 'D' } else if d == 14 { 'E' } else { 'F' }
}

fn lower_digit(d: u16) -> (c: char)
    requires
        d < 16,
    ensures
        c == hex_char(d as nat),
{
    if d < 10 {
        if d == 0 { '0' } else if d == 1 { '1' } else if d == 2 { '2' } else if d == 3 { '3' } else if d == 4 { '4' }
        else if d == 5 { '5' } else if d == 6 { '6' } else if d == 7 { '7' } else if d == 8 { '8' } else { '9' }
    } else if d == 10 { 'a' } else if d == 11 { 'b' } else if d == 12 { 'c' } else if d == 13 { 'd' } else if d == 14 { 'e' } else { 'f' }
}

fn push_hex4_upper(s: &mut String, n: u16)
    ensures
        final(s)@ == old(s)@ + hex4_upper(n),
{
    push_char(s, '0');
    push_char(s, 'x');
    push_char(s, upper_digit(n / 4096));
    push_char(s, upper_digit(n / 256 % 16));
    push_char(s, upper_digit(n / 16 % 16));
    push_char(s, upper_digit(n % 16));
    assert(final(s)@ =~= old(s)@ + hex4_upper(n));
}

fn push_hex2(s: &mut String, n: u8, upper: bool)
    ensures
        final(s)@ == old(s)@ + if upper { hex2_upper(n) } else { hex2_lower(n) },
{
    push_char(s, '0');
    push_char(s, 'x');
    let hi = (n / 16) as u16;
    let lo = (n % 16) as u16;
    if upper {
        push_char(s, upper_digit(hi));
        push_char(s, upper_digit(lo));
    } else {
        push_char(s, lower_digit(hi));
        push_char(s, lower_digit(lo));
    }
    assert(final(s)@ =~= old(s)@ + if upper { hex2_upper(n) } else { hex2_lower(n) });
}

pub open spec fn rule() -> Seq<char> {
    "  \u{2514}\u{2500}\u{2500}\u{2500}\u{2500}\u{2500}\u{2500}\u{2500}\u{2500}\u{2500}\u{2500}\u{2500}\u{2500}\u{2500}\u{2500}\u{2500}\u{2500}\u{2500}\u{2500}\u{2500}\u{2500}\u{2500}\u{2500}\u{2500}\u{2500}\u{2500}\u{2500}\u{2500}\u{2500}\u{2500}\u{2500}\u{2500}\u{2500}\u{2500}\u{2500}\u{2500}\u{2500}\u{2500}\u{2500}\u{2500}\u{2500}\u{2500}\u{2500}\u{2500}\u{2500}\n"@
}

/// The heading lines and the controller's box.
pub open spec fn spec_controller_part(c: UsbControllerInfo) -> Seq<(Color, Seq<char>)> {
    let running = !c.halted;
    seq![
        (spec_color(TEXT), "[xHCI] HCCPARAMS1 CSZ: "@ + (if c.context_64 { "true"@ } else { "false"@ }) + " (context size = "@
            + (if c.context_64 { "64"@ } else { "32"@ }) + " bytes)\n"@),
        (spec_color(FOAM), "\u{2554}\u{2550}\u{2550}\u{2550}\u{2550}\u{2550}\u{2550}\u{2550}\u{2550}\u{2550}\u{2550}\u{2550}\u{2550}\u{2550}\u{2550}\u{2550}\u{2550}\u{2550}\u{2550}\u{2550}\u{2550}\u{2550}\u{2550}\u{2550}\u{2550}\u{2550}\u{2550}\u{2550}\u{2550}\u{2550}\u{2550}\u{2550}\u{2550}\u{2550}\u{2550}\u{2550}\u{2550}\u{2550}\u{2550}\u{2550}\u{2550}\u{2550}\u{2550}\u{2550}\u{2550}\u{2550}\u{2550}\u{2557}\n"@),
        (spec_color(FOAM), "\u{2551}         ESTADO USB xHCI \u{2014} MesaOS             \u{2551}\n"@),
        (spec_color(FOAM), "\u{255a}\u{2550}\u{2550}\u{2550}\u{2550}\u{2550}\u{2550}\u{2550}\u{2550}\u{2550}\u{2550}\u{2550}\u{2550}\u{2550}\u{2550}\u{2550}\u{2550}\u{2550}\u{2550}\u{2550}\u{2550}\u{2550}\u{2550}\u{2550}\u{2550}\u{2550}\u{2550}\u{2550}\u{2550}\u{2550}\u{2550}\u{2550}\u{2550}\u{2550}\u{2550}\u{2550}\u{2550}\u{2550}\u{2550}\u{2550}\u{2550}\u{2550}\u{2550}\u{2550}\u{2550}\u{2550}\u{2550}\u{255d}\n"@),
        (spec_color(TEXT), "\n"@),
        (spec_color(FOAM), "  \u{250c}\u{2500} Controlador xHCI \u{2500}\u{2500}\u{2500}\u{2500}\u{2500}\u{2500}\u{2500}\u{2500}\u{2500}\u{2500}\u{2500}\u{2500}\u{2500}\u{2500}\u{2500}\u{2500}\u{2500}\u{2500}\u{2500}\u{2500}\u{2500}\u{2500}\u{2500}\u{2500}\u{2500}\n"@),
        (spec_color(TEXT), "  \u{2502}  BAR0:         "@),
        (spec_color(GOLD), alt_hex(c.bar0 as nat, 0) + "\n"@),
        (spec_color(TEXT), "  \u{2502}  Estado HC:    "@),
        if running && !c.host_error { (spec_color(SUCCESS), "\u{2713} RUNNING\n"@) }
        else if c.host_error { (spec_color(ERROR), "\u{2717} HOST SYSTEM ERROR\n"@) }
        else { (spec_color(GOLD), "\u{26a0} HALTED\n"@) },
        (spec_color(TEXT), "  \u{2502}  Max Slots:    "@),
        (spec_color(SUBTLE), dec(c.max_slots as nat) + "\n"@),
        (spec_color(TEXT), "  \u{2502}  Puertos:      "@),
        (spec_color(SUBTLE), dec(c.num_ports as nat) + "\n"@),
        (spec_color(TEXT), "  \u{2502}  DBOFF:        "@),
        (spec_color(SUBTLE), alt_hex(c.dboff as nat, 0) + "\n"@),
        (spec_color(TEXT), "  \u{2502}  64-bit:       "@),
        (spec_color(SUBTLE), if c.addr64 { "S\u{ed}\n"@ } else { "No\n"@ }),
        (spec_color(TEXT), "  \u{2502}  Scratchpad:   "@),
        (spec_color(SUBTLE), "(ver HCS2 raw)\n"@),
        (spec_color(TEXT), rule()),
        (spec_color(TEXT), "\n"@),
        (spec_color(FOAM), "  \u{250c}\u{2500} Puertos f\u{ed}sicos \u{2500}\u{2500}\u{2500}\u{2500}\u{2500}\u{2500}\u{2500}\u{2500}\u{2500}\u{2500}\u{2500}\u{2500}\u{2500}\u{2500}\u{2500}\u{2500}\u{2500}\u{2500}\u{2500}\u{2500}\u{2500}\u{2500}\u{2500}\u{2500}\u{2500}\u{2500}\n"@),
    ]
}

fn emit_controller_part(out: &mut Vec<Styled>, c: &UsbControllerInfo)
    ensures
        styled_view(final(out)@) == styled_view(old(out)@) + spec_controller_part(*c),
{
    let ghost v0 = styled_view(out@);
    let mut s = string_of("[xHCI] HCCPARAMS1 CSZ: ");
    push_str(&mut s, if c.context_64 { "true" } else { "false" });
    push_str(&mut s, " (context size = ");
    push_str(&mut s, if c.context_64 { "64" } else { "32" });
    push_str(&mut s, " bytes)\n");
    emit(out, color_of(TEXT), s);
    emit_str(out, color_of(FOAM), "\u{2554}\u{2550}\u{2550}\u{2550}\u{2550}\u{2550}\u{2550}\u{2550}\u{2550}\u{2550}\u{2550}\u{2550}\u{2550}\u{2550}\u{2550}\u{2550}\u{2550}\u{2550}\u{2550}\u{2550}\u{2550}\u{2550}\u{2550}\u{2550}\u{2550}\u{2550}\u{2550}\u{2550}\u{2550}\u{2550}\u{2550}\u{2550}\u{2550}\u{2550}\u{2550}\u{2550}\u{2550}\u{2550}\u{2550}\u{2550}\u{2550}\u{2550}\u{2550}\u{2550}\u{2550}\u{2550}\u{2550}\u{2557}\n");
    emit_str(out, color_of(FOAM), "\u{2551}         ESTADO USB xHCI \u{2014} MesaOS             \u{2551}\n");
    emit_str(out, color_of(FOAM), "\u{255a}\u{2550}\u{2550}\u{2550}\u{2550}\u{2550}\u{2550}\u{2550}\u{2550}\u{2550}\u{2550}\u{2550}\u{2550}\u{2550}\u{2550}\u{2550}\u{2550}\u{2550}\u{2550}\u{2550}\u{2550}\u{2550}\u{2550}\u{2550}\u{2550}\u{2550}\u{2550}\u{2550}\u{2550}\u{2550}\u{2550}\u{2550}\u{2550}\u{2550}\u{2550}\u{2550}\u{2550}\u{2550}\u{2550}\u{2550}\u{2550}\u{2550}\u{2550}\u{2550}\u{2550}\u{2550}\u{2550}\u{255d}\n");
    emit_str(out, color_of(TEXT), "\n");
    emit_str(out, color_of(FOAM), "  \u{250c}\u{2500} Controlador xHCI \u{2500}\u{2500}\u{2500}\u{2500}\u{2500}\u{2500}\u{2500}\u{2500}\u{2500}\u{2500}\u{2500}\u{2500}\u{2500}\u{2500}\u{2500}\u{2500}\u{2500}\u{2500}\u{2500}\u{2500}\u{2500}\u{2500}\u{2500}\u{2500}\u{2500}\n");
    emit_str(out, color_of(TEXT), "  \u{2502}  BAR0:         ");
    let mut s = String::new();
    push_alt_hex(&mut s, c.bar0, 0);
    push_str(&mut s, "\n");
    emit(out, color_of(GOLD), s);
    emit_str(out, color_of(TEXT), "  \u{2502}  Estado HC:    ");
    if !c.halted && !c.host_error {
        emit_str(out, color_of(SUCCESS), "\u{2713} RUNNING\n");
    } else if c.host_error {
        emit_str(out, color_of(ERROR), "\u{2717} HOST SYSTEM ERROR\n");
    } else {
        emit_str(out, color_of(GOLD), "\u{26a0} HALTED\n");
    }
    emit_str(out, color_of(TEXT), "  \u{2502}  Max Slots:    ");
    let mut s = String::new();
    push_dec(&mut s, c.max_slots as u64);
    push_str(&mut s, "\n");
    emit(out, color_of(SUBTLE), s);
    emit_str(out, color_of(TEXT), "  \u{2502}  Puertos:      ");
    let mut s = String::new();
    push_dec(&mut s, c.num_ports as u64);
    push_str(&mut s, "\n");
    emit(out, color_of(SUBTLE), s);
    emit_str(out, color_of(TEXT), "  \u{2502}  DBOFF:        ");
    let mut s = String::new();
    push_alt_hex(&mut s, c.dboff as u64, 0);
    push_str(&mut s, "\n");
    emit(out, color_of(SUBTLE), s);
    emit_str(out, color_of(TEXT), "  \u{2502}  64-bit:       ");
    emit_str(out, color_of(SUBTLE), if c.addr64 { "S\u{ed}\n" } else { "No\n" });
    emit_str(out, color_of(TEXT), "  \u{2502}  Scratchpad:   ");
    emit_str(out, color_of(SUBTLE), "(ver HCS2 raw)\n");
    emit_str(out, color_of(TEXT), "  \u{2514}\u{2500}\u{2500}\u{2500}\u{2500}\u{2500}\u{2500}\u{2500}\u{2500}\u{2500}\u{2500}\u{2500}\u{2500}\u{2500}\u{2500}\u{2500}\u{2500}\u{2500}\u{2500}\u{2500}\u{2500}\u{2500}\u{2500}\u{2500}\u{2500}\u{2500}\u{2500}\u{2500}\u{2500}\u{2500}\u{2500}\u{2500}\u{2500}\u{2500}\u{2500}\u{2500}\u{2500}\u{2500}\u{2500}\u{2500}\u{2500}\u{2500}\u{2500}\u{2500}\u{2500}\n");
    emit_str(out, color_of(TEXT), "\n");
    emit_str(out, color_of(FOAM), "  \u{250c}\u{2500} Puertos f\u{ed}sicos \u{2500}\u{2500}\u{2500}\u{2500}\u{2500}\u{2500}\u{2500}\u{2500}\u{2500}\u{2500}\u{2500}\u{2500}\u{2500}\u{2500}\u{2500}\u{2500}\u{2500}\u{2500}\u{2500}\u{2500}\u{2500}\u{2500}\u{2500}\u{2500}\u{2500}\u{2500}\n");
    assert(styled_view(out@) =~= v0 + spec_controller_part(*c));
}

/// The line of root-hub port `i` (shown from 1).
pub open spec fn spec_port_line(i: nat, p: PortStatus) -> Seq<(Color, Seq<char>)> {
    seq![(spec_color(TEXT), "  \u{2502}  Puerto "@ + dec2(i + 1) + ":  "@)] + (if p.connected {
        seq![(spec_color(SUCCESS), "\u{25cf} CONECTADO "@), (spec_color(GOLD), "["@ + spec_port_speed_name(p.speed) + "]"@),
            if p.enabled { (spec_color(SUCCESS), " HABILITADO"@) } else { (spec_color(GOLD), " DESHABILITADO"@) }]
    } else {
        seq![(spec_color(MUTED), "\u{25cb} vac\u{ed}o"@)]
    }) + seq![(spec_color(TEXT), "\n"@)]
}

/// The lines of the first `k` ports.
pub open spec fn spec_ports_part(ports: Seq<PortStatus>, k: nat) -> Seq<(Color, Seq<char>)>
    decreases k,
{
    if k == 0 || k > ports.len() { Seq::empty() } else { spec_ports_part(ports, (k - 1) as nat) + spec_port_line((k - 1) as nat, ports[k - 1]) }
}

/// The number of connected ports among the first `k`.
pub open spec fn connected_count(ports: Seq<PortStatus>, k: nat) -> nat
    decreases k,
{
    if k == 0 || k > ports.len() { 0 } else { connected_count(ports, (k - 1) as nat) + if ports[k - 1].connected { 1nat } else { 0nat } }
}

fn emit_port_line(out: &mut Vec<Styled>, i: u16, p: &PortStatus)
    ensures
        styled_view(final(out)@) == styled_view(old(out)@) + spec_port_line(i as nat, *p),
{
    let ghost v0 = styled_view(out@);
    let mut s = string_of("  \u{2502}  Puerto ");
    push_dec2(&mut s, i as u64 + 1);
    push_str(&mut s, ":  ");
    emit(out, color_of(TEXT), s);
    let ghost v1 = styled_view(out@);
    if p.connected {
        emit_str(out, color_of(SUCCESS), "\u{25cf} CONECTADO ");
        let mut s = string_of("[");
        push_str(&mut s, port_speed_name(p.speed));
        push_str(&mut s, "]");
        emit(out, color_of(GOLD), s);
        if p.enabled {
            emit_str(out, color_of(SUCCESS), " HABILITADO");
        } else {
            emit_str(out, color_of(GOLD), " DESHABILITADO");
        }
    } else {
        emit_str(out, color_of(MUTED), "\u{25cb} vac\u{ed}o");
    }
    emit_str(out, color_of(TEXT), "\n");
    assert(styled_view(out@) =~= v0 + spec_port_line(i as nat, *p));
}

/// One partition line of a device: its number (from 1), type, first sector and size.
pub open spec fn spec_partition_line(k: nat, ptype: u8, lba: u64, mb: u32) -> Seq<(Color, Seq<char>)> {
    seq![
        (spec_color(GOLD), "  \u{2502}       #"@ + pad_right(dec(k + 1), 2) + "  "@ + hex2_lower(ptype) + " "@
            + pad_right(spec_part_type_name(ptype), 12) + "  LBA "@ + pad_right(dec(lba as nat), 10) + "  "@
            + dec(mb as nat) + " MB"@),
        (spec_color(TEXT), "\n"@),
    ]
}

/// The lines of the first `k` partitions of a device.
pub open spec fn spec_partition_lines(d: UsbDeviceState, k: nat) -> Seq<(Color, Seq<char>)>
    decreases k,
{
    if k == 0 || k > 8 {
        Seq::empty()
    } else {
        spec_partition_lines(d, (k - 1) as nat)
            + spec_partition_line((k - 1) as nat, d.part_type@[k - 1], d.part_lba_start@[k - 1], d.part_size_mb@[k - 1])
    }
}

fn emit_partition_line(out: &mut Vec<Styled>, k: usize, ptype: u8, lba_start: u64, size_mb: u32)
    requires
        k < 8,
    ensures
        styled_view(final(out)@) == styled_view(old(out)@) + spec_partition_line(k as nat, ptype, lba_start, size_mb),
{
    let ghost v0 = styled_view(out@);
    let mut n = String::new();
    push_dec(&mut n, k as u64 + 1);
    let mut lba = String::new();
    push_dec(&mut lba, lba_start);
    let mut s = string_of("  \u{2502}       #");
    push_padded(&mut s, n.as_str(), 2);
    push_str(&mut s, "  ");
    push_hex2(&mut s, ptype, false);
    push_str(&mut s, " ");
    push_padded(&mut s, part_type_name(ptype), 12);
    push_str(&mut s, "  LBA ");
    push_padded(&mut s, lba.as_str(), 10);
    push_str(&mut s, "  ");
    push_dec(&mut s, size_mb as u64);
    push_str(&mut s, " MB");
    emit(out, color_of(GOLD), s);
    emit_str(out, color_of(TEXT), "\n");
    assert(styled_view(out@) =~= v0 + spec_partition_line(k as nat, ptype, lba_start, size_mb));
}

/// The progress marks of a device's enumeration steps.
pub open spec fn spec_phase_marks(p: UsbPhase) -> Seq<(Color, Seq<char>)> {
    let r = phase_rank(p);
    seq![
        if r >= 1 { (spec_color(SUCCESS), "[\u{2713}Slot]"@) } else { (spec_color(MUTED), "[\u{b7}Slot]"@) },
        if r >= 2 { (spec_color(SUCCESS), "[\u{2713}Addr]"@) } else { (spec_color(MUTED), "[\u{b7}Addr]"@) },
        if r >= 3 { (spec_color(SUCCESS), "[\u{2713}DevDesc]"@) } else { (spec_color(MUTED), "[\u{b7}DevDesc]"@) },
        if r >= 4 { (spec_color(SUCCESS), "[\u{2713}CfgDesc]"@) } else { (spec_color(MUTED), "[\u{b7}CfgDesc]"@) },
        if r >= 5 { (spec_color(SUCCESS), "[\u{2713}EPs]"@) } else { (spec_color(MUTED), "[\u{b7}EPs]"@) },
        if r >= 6 { (spec_color(SUCCESS), "[\u{2713}SetCfg]"@) } else { (spec_color(MUTED), "[\u{b7}SetCfg]"@) },
    ]
}

fn emit_mark(out: &mut Vec<Styled>, done: bool, on: &str, off: &str)
    ensures
        styled_view(final(out)@) == styled_view(old(out)@).push(if done { (spec_color(SUCCESS), on@) } else { (spec_color(MUTED), off@) }),
{
    if done {
        emit_str(out, color_of(SUCCESS), on);
    } else {
        emit_str(out, color_of(MUTED), off);
    }
}

fn emit_phase_marks(out: &mut Vec<Styled>, p: UsbPhase)
    ensures
        styled_view(final(out)@) == styled_view(old(out)@) + spec_phase_marks(p),
{
    let ghost v0 = styled_view(out@);
    let r = rank_of(p);
    emit_mark(out, r >= 1, "[\u{2713}Slot]", "[\u{b7}Slot]");
    emit_mark(out, r >= 2, "[\u{2713}Addr]", "[\u{b7}Addr]");
    emit_mark(out, r >= 3, "[\u{2713}DevDesc]", "[\u{b7}DevDesc]");
    emit_mark(out, r >= 4, "[\u{2713}CfgDesc]", "[\u{b7}CfgDesc]");
    emit_mark(out, r >= 5, "[\u{2713}EPs]", "[\u{b7}EPs]");
    emit_mark(out, r >= 6, "[\u{2713}SetCfg]", "[\u{b7}SetCfg]");
    assert(styled_view(out@) =~= v0 + spec_phase_marks(p));
}

/// The first line of an enumerated device: slot, port, speed and phase.
pub open spec fn spec_device_head(d: UsbDeviceState) -> Seq<(Color, Seq<char>)> {
    seq![
        (spec_color(FOAM), "  \u{2502}  Slot "@ + dec2(d.slot_id as nat) + " \u{2502} Puerto "@ + dec2((d.port + 1) as nat) + " \u{2502} "@ + spec_speed_short(d.speed) + " \u{2502} "@),
        (spec_color(spec_phase_color(d.phase)), spec_phase_name(d.phase) + "\n"@),
    ]
}

/// Vendor and product (when either is set) and class (when set).
pub open spec fn spec_device_ids(d: UsbDeviceState) -> Seq<(Color, Seq<char>)> {
    (if d.vendor_id != 0 || d.product_id != 0 {
        seq![(spec_color(TEXT), "  \u{2502}     VID:PID = "@), (spec_color(GOLD), hex4_upper(d.vendor_id) + ":"@ + hex4_upper(d.product_id) + "\n"@)]
    } else {
        Seq::empty()
    }) + (if d.class != 0 {
        seq![(spec_color(TEXT), "  \u{2502}     Clase:  "@), (spec_color(IRIS), hex2_upper(d.class) + " \u{2014} "@ + spec_class_name(d.class) + "\n"@)]
    } else {
        Seq::empty()
    })
}

/// Interfaces, endpoints and the active configuration (when set).
pub open spec fn spec_device_counts(d: UsbDeviceState) -> Seq<(Color, Seq<char>)> {
    seq![
        (spec_color(TEXT), "  \u{2502}     Interfaces: "@),
        (spec_color(SUBTLE), dec(d.num_interfaces as nat)),
        (spec_color(TEXT), "  \u{2502}  Endpoints: "@),
        (spec_color(SUBTLE), dec(d.num_endpoints as nat) + "\n"@),
    ] + (if d.config_val != 0 {
        seq![(spec_color(TEXT), "  \u{2502}     Configuraci\u{f3}n activa: "@), (spec_color(SUCCESS), dec(d.config_val as nat) + "\n"@)]
    } else {
        Seq::empty()
    })
}

/// The partitions, when the device has any.
pub open spec fn spec_device_partitions(d: UsbDeviceState) -> Seq<(Color, Seq<char>)> {
    if d.num_partitions > 0 {
        seq![(spec_color(TEXT), "  \u{2502}     \u{1f4cb} Particiones:\n"@)] + spec_partition_lines(d, d.num_partitions as nat)
            + seq![(spec_color(TEXT), "  \u{2502}\n"@)]
    } else {
        Seq::empty()
    }
}

/// The progress line.
pub open spec fn spec_device_phases(d: UsbDeviceState) -> Seq<(Color, Seq<char>)> {
    seq![(spec_color(TEXT), "  \u{2502}     Fases: "@)] + spec_phase_marks(d.phase) + seq![(spec_color(TEXT), "\n"@), (spec_color(TEXT), "  \u{2502}\n"@)]
}

/// The lines of one enumerated device.
pub open spec fn spec_device_part(d: UsbDeviceState) -> Seq<(Color, Seq<char>)> {
    spec_device_head(d) + spec_device_ids(d) + spec_device_counts(d) + spec_device_partitions(d) + spec_device_phases(d)
}

fn emit_device_head(out: &mut Vec<Styled>, d: &UsbDeviceState)
    ensures
        styled_view(final(out)@) == styled_view(old(out)@) + spec_device_head(*d),
{
    let ghost v0 = styled_view(out@);
    let mut s = string_of("  \u{2502}  Slot ");
    push_dec2(&mut s, d.slot_id as u64);
    push_str(&mut s, " \u{2502} Puerto ");
    push_dec2(&mut s, d.port as u64 + 1);
    push_str(&mut s, " \u{2502} ");
    push_str(&mut s, speed_short(d.speed));
    push_str(&mut s, " \u{2502} ");
    emit(out, color_of(FOAM), s);
    let mut s = string_of(phase_name(d.phase));
    push_str(&mut s, "\n");
    let pc = match d.phase {
        UsbPhase::SetConfigurationDone => SUCCESS,
        UsbPhase::Failed => ERROR,
        _ => GOLD,
    };
    emit(out, color_of(pc), s);
    assert(styled_view(out@) =~= v0 + spec_device_head(*d));
}

fn emit_device_ids(out: &mut Vec<Styled>, d: &UsbDeviceState)
    ensures
        styled_view(final(out)@) == styled_view(old(out)@) + spec_device_ids(*d),
{
    let ghost v0 = styled_view(out@);
    if d.vendor_id != 0 || d.product_id != 0 {
        emit_str(out, color_of(TEXT), "  \u{2502}     VID:PID = ");
        let mut s = String::new();
        push_hex4_upper(&mut s, d.vendor_id);
        push_str(&mut s, ":");
        push_hex4_upper(&mut s, d.product_id);
        push_str(&mut s, "\n");
        emit(out, color_of(GOLD), s);
    }
    let ghost v1 = styled_view(out@);
    if d.class != 0 {
        emit_str(out, color_of(TEXT), "  \u{2502}     Clase:  ");
        let mut s = String::new();
        push_hex2(&mut s, d.class, true);
        push_str(&mut s, " \u{2014} ");
        push_str(&mut s, class_name(d.class));
        push_str(&mut s, "\n");
        emit(out, color_of(IRIS), s);
    }
    assert(styled_view(out@) =~= v0 + spec_device_ids(*d));
}

fn emit_device_counts(out: &mut Vec<Styled>, d: &UsbDeviceState)
    ensures
        styled_view(final(out)@) == styled_view(old(out)@) + spec_device_counts(*d),
{
    let ghost v0 = styled_view(out@);
    emit_str(out, color_of(TEXT), "  \u{2502}     Interfaces: ");
    let mut s = String::new();
    push_dec(&mut s, d.num_interfaces as u64);
    emit(out, color_of(SUBTLE), s);
    emit_str(out, color_of(TEXT), "  \u{2502}  Endpoints: ");
    let mut s = String::new();
    push_dec(&mut s, d.num_endpoints as u64);
    push_str(&mut s, "\n");
    emit(out, color_of(SUBTLE), s);
    let ghost v1 = styled_view(out@);
    if d.config_val != 0 {
        emit_str(out, color_of(TEXT), "  \u{2502}     Configuraci\u{f3}n activa: ");
        let mut s = String::new();
        push_dec(&mut s, d.config_val as u64);
        push_str(&mut s, "\n");
        emit(out, color_of(SUCCESS), s);
    }
    assert(styled_view(out@) =~= v0 + spec_device_counts(*d));
}

fn emit_device_partitions(out: &mut Vec<Styled>, d: &UsbDeviceState)
    requires
        d.num_partitions <= 8,
    ensures
        styled_view(final(out)@) == styled_view(old(out)@) + spec_device_partitions(*d),
{
    let ghost v0 = styled_view(out@);
    if d.num_partitions > 0 {
        emit_str(out, color_of(TEXT), "  \u{2502}     \u{1f4cb} Particiones:\n");
        let ghost v6 = styled_view(out@);
        let mut k: usize = 0;
        while k < d.num_partitions as usize
            invariant
                k <= d.num_partitions <= 8,
                styled_view(out@) == v6 + spec_partition_lines(*d, k as nat),
            decreases d.num_partitions - k,
        {
            emit_partition_line(out, k, d.part_type[k], d.part_lba_start[k], d.part_size_mb[k]);
            proof {
                assert(v6 + spec_partition_lines(*d, (k + 1) as nat) =~= v6 + spec_partition_lines(*d, k as nat)
                    + spec_partition_line(k as nat, d.part_type@[k as int], d.part_lba_start@[k as int], d.part_size_mb@[k as int]));
            }
            k = k + 1;
        }
        emit_str(out, color_of(TEXT), "  \u{2502}\n");
    }
    assert(styled_view(out@) =~= v0 + spec_device_partitions(*d));
}

fn emit_device(out: &mut Vec<Styled>, d: &UsbDeviceState)
    requires
        d.num_partitions <= 8,
    ensures
        styled_view(final(out)@) == styled_view(old(out)@) + spec_device_part(*d),
{
    let ghost v0 = styled_view(out@);
    emit_device_head(out, d);
    emit_device_ids(out, d);
    emit_device_counts(out, d);
    emit_device_partitions(out, d);
    let ghost v4 = styled_view(out@);
    emit_str(out, color_of(TEXT), "  \u{2502}     Fases: ");
    emit_phase_marks(out, d.phase);
    emit_str(out, color_of(TEXT), "\n");
    emit_str(out, color_of(TEXT), "  \u{2502}\n");
    assert(styled_view(out@) =~= v4 + spec_device_phases(*d));
    assert(styled_view(out@) =~= v0 + spec_device_part(*d));
}

/// The lines of the active devices among the first `k`.
pub open spec fn spec_devices_part(ds: Seq<UsbDeviceState>, k: nat) -> Seq<(Color, Seq<char>)>
    decreases k,
{
    if k == 0 || k > ds.len() {
        Seq::empty()
    } else {
        spec_devices_part(ds, (k - 1) as nat) + if ds[k - 1].active { spec_device_part(ds[k - 1]) } else { Seq::empty() }
    }
}

/// The number of active devices among the first `k` that finished enumeration.
pub open spec fn ready_count(ds: Seq<UsbDeviceState>, k: nat) -> nat
    decreases k,
{
    if k == 0 || k > ds.len() {
        0
    } else {
        ready_count(ds, (k - 1) as nat) + if ds[k - 1].active && ds[k - 1].phase == UsbPhase::SetConfigurationDone { 1nat } else { 0nat }
    }
}

pub open spec fn any_active(ds: Seq<UsbDeviceState>) -> bool {
    exists|i: int| 0 <= i < ds.len() && #[trigger] ds[i].active
}

/// The closing summary.
pub open spec fn spec_summary(c: UsbControllerInfo, connected: nat, ready: nat) -> Seq<(Color, Seq<char>)> {
    seq![
        (spec_color(FOAM), "  Resumen: "@),
        (spec_color(TEXT), "HC "@),
        if !c.halted && !c.host_error { (spec_color(SUCCESS), "ACTIVO"@) } else { (spec_color(ERROR), "INACTIVO"@) },
        (spec_color(TEXT), "  \u{2502}  "@),
        (spec_color(GOLD), dec(connected) + "/"@ + dec(c.num_ports as nat)),
        (spec_color(TEXT), " puertos usados  \u{2502}  "@),
        (spec_color(if ready > 0 { SUCCESS } else { SUBTLE }), dec(ready) + " dispositivo(s) OK"@),
        (spec_color(TEXT), "\n"@),
        (spec_color(TEXT), "\n"@),
    ]
}

/// The whole report (each device listing at most its eight partition slots): without a controller a single line says so; otherwise the
/// controller, each port, each active device (or a line saying none is there yet), and
/// a summary of connected ports and fully enumerated devices.
pub open spec fn spec_usb_report(c: Option<UsbControllerInfo>, ports: Seq<PortStatus>, ds: Seq<UsbDeviceState>) -> Seq<(Color, Seq<char>)> {
    match c {
        None => seq![(spec_color(ERROR), "  [\u{2717}] Controlador xHCI no inicializado.\n"@)],
        Some(c) => spec_controller_part(c) + spec_ports_part(ports, ports.len())
            + seq![(spec_color(TEXT), rule()), (spec_color(TEXT), "\n"@),
                (spec_color(FOAM), "  \u{250c}\u{2500} Dispositivos enumerados \u{2500}\u{2500}\u{2500}\u{2500}\u{2500}\u{2500}\u{2500}\u{2500}\u{2500}\u{2500}\u{2500}\u{2500}\u{2500}\u{2500}\u{2500}\u{2500}\u{2500}\u{2500}\u{2500}\n"@)]
            + spec_devices_part(ds, ds.len())
            + (if any_active(ds) { Seq::empty() } else { seq![(spec_color(SUBTLE), "  \u{2502}  (ning\u{fa}n dispositivo enumerado todav\u{ed}a)\n"@)] })
            + seq![(spec_color(TEXT), rule()), (spec_color(TEXT), "\n"@)]
            + spec_summary(c, connected_count(ports, ports.len()), ready_count(ds, ds.len())),
    }
}

fn emit_ports(out: &mut Vec<Styled>, ports: &[PortStatus]) -> (connected: u64)
    requires
        ports@.len() <= 255,
    ensures
        styled_view(final(out)@) == styled_view(old(out)@) + spec_ports_part(ports@, ports@.len()),
        connected == connected_count(ports@, ports@.len()),
{
    let ghost v1 = styled_view(out@);
    let mut connected: u64 = 0;
    let mut i: usize = 0;
    while i < ports.len()
        invariant
            i <= ports@.len() <= 255,
            connected == connected_count(ports@, i as nat),
            connected <= i,
            styled_view(out@) == v1 + spec_ports_part(ports@, i as nat),
        decreases ports@.len() - i,
    {
        emit_port_line(out, i as u16, &ports[i]);
        proof {
            assert(v1 + spec_ports_part(ports@, (i + 1) as nat) =~= v1 + spec_ports_part(ports@, i as nat)
                + spec_port_line(i as nat, ports@[i as int]));
        }
        if ports[i].connected {
            connected = connected + 1;
        }
        i = i + 1;
    }
    connected
}

fn emit_devices(out: &mut Vec<Styled>, devices: &[UsbDeviceState]) -> (res: (bool, u64))
    requires
        devices@.len() <= 255,
        forall|i: int| 0 <= i < devices@.len() ==> (#[trigger] devices@[i]).num_partitions <= 8,
    ensures
        styled_view(final(out)@) == styled_view(old(out)@) + spec_devices_part(devices@, devices@.len()),
        res.0 == any_active(devices@),
        res.1 == ready_count(devices@, devices@.len()),
{
    let ghost v2 = styled_view(out@);
    let mut found = false;
    let mut ready: u64 = 0;
    let mut k: usize = 0;
    while k < devices.len()
        invariant
            k <= devices@.len() <= 255,
            forall|i: int| 0 <= i < devices@.len() ==> (#[trigger] devices@[i]).num_partitions <= 8,
            ready == ready_count(devices@, k as nat),
            ready <= k,
            found == exists|j: int| 0 <= j < k && #[trigger] devices@[j].active,
            styled_view(out@) == v2 + spec_devices_part(devices@, k as nat),
        decreases devices@.len() - k,
    {
        let ghost pre = styled_view(out@);
        if devices[k].active {
            found = true;
            emit_device(out, &devices[k]);
            if devices[k].phase == UsbPhase::SetConfigurationDone {
                ready = ready + 1;
            }
            assert(v2 + spec_devices_part(devices@, (k + 1) as nat) =~= pre + spec_device_part(devices@[k as int]));
        } else {
            assert(v2 + spec_devices_part(devices@, (k + 1) as nat) =~= pre);
        }
        k = k + 1;
    }
    (found, ready)
}

fn emit_summary(out: &mut Vec<Styled>, c: &UsbControllerInfo, connected: u64, ready: u64)
    ensures
        styled_view(final(out)@) == styled_view(old(out)@) + spec_summary(*c, connected as nat, ready as nat),
{
    let ghost v0 = styled_view(out@);
    emit_str(out, color_of(FOAM), "  Resumen: ");
    emit_str(out, color_of(TEXT), "HC ");
    if !c.halted && !c.host_error {
        emit_str(out, color_of(SUCCESS), "ACTIVO");
    } else {
        emit_str(out, color_of(ERROR), "INACTIVO");
    }
    emit_str(out, color_of(TEXT), "  \u{2502}  ");
    let mut s = String::new();
    push_dec(&mut s, connected);
    push_str(&mut s, "/");
    push_dec(&mut s, c.num_ports as u64);
    emit(out, color_of(GOLD), s);
    emit_str(out, color_of(TEXT), " puertos usados  \u{2502}  ");
    let mut s = String::new();
    push_dec(&mut s, ready);
    push_str(&mut s, " dispositivo(s) OK");
    emit(out, color_of(if ready > 0 { SUCCESS } else { SUBTLE }), s);
    emit_str(out, color_of(TEXT), "\n");
    emit_str(out, color_of(TEXT), "\n");
    assert(styled_view(out@) =~= v0 + spec_summary(*c, connected as nat, ready as nat));
}

/// The USB status report as styled text.
pub fn usb_status_report(c: Option<UsbControllerInfo>, ports: &[PortStatus], devices: &[UsbDeviceState]) -> (res: Vec<Styled>)
    requires
        ports@.len() <= 255,
        devices@.len() <= 255,
        forall|i: int| 0 <= i < devices@.len() ==> (#[trigger] devices@[i]).num_partitions <= 8,
    ensures
        styled_view(res@) == spec_usb_report(c, ports@, devices@),
{
    let mut out: Vec<Styled> = Vec::new();
    let c = match c {
        None => {
            emit_str(&mut out, color_of(ERROR), "  [\u{2717}] Controlador xHCI no inicializado.\n");
            assert(styled_view(out@) =~= spec_usb_report(None, ports@, devices@));
            return out;
        },
        Some(c) => c,
    };
    emit_controller_part(&mut out, &c);
    let connected = emit_ports(&mut out, ports);
    emit_str(&mut out, color_of(TEXT), "  \u{2514}\u{2500}\u{2500}\u{2500}\u{2500}\u{2500}\u{2500}\u{2500}\u{2500}\u{2500}\u{2500}\u{2500}\u{2500}\u{2500}\u{2500}\u{2500}\u{2500}\u{2500}\u{2500}\u{2500}\u{2500}\u{2500}\u{2500}\u{2500}\u{2500}\u{2500}\u{2500}\u{2500}\u{2500}\u{2500}\u{2500}\u{2500}\u{2500}\u{2500}\u{2500}\u{2500}\u{2500}\u{2500}\u{2500}\u{2500}\u{2500}\u{2500}\u{2500}\u{2500}\u{2500}\n");
    emit_str(&mut out, color_of(TEXT), "\n");
    emit_str(&mut out, color_of(FOAM), "  \u{250c}\u{2500} Dispositivos enumerados \u{2500}\u{2500}\u{2500}\u{2500}\u{2500}\u{2500}\u{2500}\u{2500}\u{2500}\u{2500}\u{2500}\u{2500}\u{2500}\u{2500}\u{2500}\u{2500}\u{2500}\u{2500}\u{2500}\n");
    let (found, ready) = emit_devices(&mut out, devices);
    let ghost v3 = styled_view(out@);
    if !found {
        emit_str(&mut out, color_of(SUBTLE), "  \u{2502}  (ning\u{fa}n dispositivo enumerado todav\u{ed}a)\n");
    } else {
        assert(v3 + Seq::<(Color, Seq<char>)>::empty() =~= v3);
    }
    emit_str(&mut out, color_of(TEXT), "  \u{2514}\u{2500}\u{2500}\u{2500}\u{2500}\u{2500}\u{2500}\u{2500}\u{2500}\u{2500}\u{2500}\u{2500}\u{2500}\u{2500}\u{2500}\u{2500}\u{2500}\u{2500}\u{2500}\u{2500}\u{2500}\u{2500}\u{2500}\u{2500}\u{2500}\u{2500}\u{2500}\u{2500}\u{2500}\u{2500}\u{2500}\u{2500}\u{2500}\u{2500}\u{2500}\u{2500}\u{2500}\u{2500}\u{2500}\u{2500}\u{2500}\u{2500}\u{2500}\u{2500}\u{2500}\n");
    emit_str(&mut out, color_of(TEXT), "\n");
    emit_summary(&mut out, &c, connected, ready);
    assert(styled_view(out@) =~= spec_usb_report(Some(c), ports@, devices@));
    out
}

} // verus!
