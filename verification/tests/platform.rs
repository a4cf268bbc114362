use mesa_kernel::acpi::{aml_pci_address, phys_to_virt, root_entries, rsdp_root, to_virt, AcpiScan, InterruptOverride};
use mesa_kernel::arch::{
    init_apic, init_task_stack, init_user_stack, lapic_hz_from, lapic_timer_setup, route_legacy_irqs, send_eoi, Context,
    EoiTarget, IoApic, LapicTimer,
};
use mesa_kernel::ata::{read_sectors, store_sector, write_sectors};
use mesa_kernel::config::{
    get_hostname, get_kbd_layout, get_lang, get_tz_offset, init as config_init, set_hostname, set_kbd_layout, set_lang,
    set_tz_offset, KbdLayout, Lang, MesaConfig,
};
use mesa_kernel::console::{Color, Console};
use mesa_kernel::keyboard::{decode, init as keyboard_init, KeyEvent};
use mesa_kernel::hda::{command_rings, RegWrite};
use mesa_kernel::mouse::{read_event, MouseButton, MouseEvent, MouseState};
use mesa_kernel::palette::{from_rgb, rgb};
use mesa_kernel::pci::{
    buses_to_scan, command_with_enables, device_from_config, scan_bus, scan_device, find_device, find_usb_controller, find_wifi_device, pci_config_address,
    pci_config_read_byte, pci_config_read_word, pci_setup_bridge_window, PciDevice,
};
use mesa_kernel::touchpad::{init as touchpad_init, is_present, poll as touchpad_poll, status as touchpad_status, TouchpadState};
use mesa_kernel::ui::UiRenderer;
use mesa_kernel::xhci::{configure_msix, msix_table_size};

fn table(sig: &[u8; 4], len: usize) -> Vec<u8> {
    let mut t = vec![0u8; len];
    t[0..4].copy_from_slice(sig);
    t[4..8].copy_from_slice(&(len as u32).to_le_bytes());
    t
}

#[test]
fn acpi_rsdp_and_root_entries() {
    let mut r = vec![0u8; 36];
    r[0..8].copy_from_slice(b"RSD PTR ");
    r[15] = 2;
    r[24..32].copy_from_slice(&0x1234_5678_9000u64.to_le_bytes());
    assert_eq!(rsdp_root(&r), Ok((true, 0x1234_5678_9000, 2)));
    r[15] = 0;
    r[16..20].copy_from_slice(&0x000E_0000u32.to_le_bytes());
    assert_eq!(rsdp_root(&r), Ok((false, 0x000E_0000, 0)));
    r[16..20].copy_from_slice(&0u32.to_le_bytes());
    assert_eq!(rsdp_root(&r), Err("Root table address is null"));
    r[0] = b'X';
    assert_eq!(rsdp_root(&r), Err("RSDP signature mismatch"));

    let mut x = table(b"XSDT", 52);
    x[36..44].copy_from_slice(&0x1000u64.to_le_bytes());
    x[44..52].copy_from_slice(&0x2000u64.to_le_bytes());
    assert_eq!(root_entries(&x, true), Ok(vec![0x1000, 0x2000]));
    let mut rs = table(b"RSDT", 44);
    rs[36..40].copy_from_slice(&0x3000u32.to_le_bytes());
    rs[40..44].copy_from_slice(&0x4000u32.to_le_bytes());
    assert_eq!(root_entries(&rs, false), Ok(vec![0x3000, 0x4000]));
}

#[test]
fn acpi_scan_tables() {
    let mut scan = AcpiScan::new(2);
    // MADT: local APIC at 0xFEE00000, an I/O APIC, an override of IRQ 0 to GSI 2.
    let mut m = table(b"APIC", 44 + 12 + 10);
    m[36..40].copy_from_slice(&0xFEE0_0000u32.to_le_bytes());
    m[44] = 1;
    m[45] = 12;
    m[48..52].copy_from_slice(&0xFEC0_0000u32.to_le_bytes());
    m[56] = 2;
    m[57] = 10;
    m[59] = 0;
    m[60..64].copy_from_slice(&2u32.to_le_bytes());
    m[64..66].copy_from_slice(&0x000Du16.to_le_bytes());
    scan.visit(0x10_0000, &m);
    assert_eq!(scan.lapic, 0xFEE0_0000);
    assert_eq!(scan.ioapic, 0xFEC0_0000);
    assert_eq!(scan.overrides, vec![InterruptOverride { source: 0, global_system_interrupt: 2, flags: 0x0D }]);
    // FADT without the 8042 bit, with a DSDT.
    let mut f = table(b"FACP", 148);
    f[40..44].copy_from_slice(&0x5000u32.to_le_bytes());
    scan.visit(0x20_0000, &f);
    assert!(!scan.has_8042);
    assert_eq!(scan.dsdt_phys, 0x5000);
    let s = table(b"SSDT", 36);
    scan.visit(0x30_0000, &s);
    assert_eq!(scan.ssdt_phys, vec![0x30_0000]);
    let short = table(b"SSDT", 20);
    scan.visit(0x40_0000, &short);
    assert_eq!(scan.ssdt_phys, vec![0x30_0000]);

    let info = scan.finish(0xE_0000, b"MESA\xFFX", 4);
    assert_eq!(info.oem_id, "MESA\u{FFFD}X");
    assert_eq!(info.local_apic_address, 0xFEE0_0000);
    assert_eq!(info.cpu_count, 4);
    assert_eq!(send_eoi(Some(&info)), EoiTarget::LocalApic(0xFEE0_0000));
    assert_eq!(send_eoi(None), EoiTarget::Pic);
    let plan = init_apic(Some(&info), 0).unwrap().unwrap();
    assert_eq!(plan.timer, (0x14, 32 + 0x8000 + 0x1_0000, 0x15, 0));
    assert_eq!(plan.keyboard, (0x12, 33, 0x13, 0));
    assert_eq!(plan.wifi, (0x26, 43 + 0x2000 + 0x8000, 0x27, 0));
    assert!(init_apic(None, 0).is_err());
}

#[test]
fn direct_map_and_config_addresses() {
    assert_eq!(phys_to_virt(0x1000, 0xFFFF_8000_0000_0000), 0xFFFF_8000_0000_1000);
    assert_eq!(phys_to_virt(0xFFFF_9000_0000_0000, 0xFFFF_8000_0000_0000), 0xFFFF_9000_0000_0000);
    assert_eq!(to_virt(0x2000, 0x10_0000), 0x10_2000);
    assert_eq!(aml_pci_address(0, 0x1F, 3, 0x42), 0x8000_FB40);
    assert_eq!(pci_config_address(1, 2, 3, 0x13), 0x8001_1310);
    assert_eq!(pci_config_read_byte(0x1122_3344, 2), 0x22);
    assert_eq!(pci_config_read_word(0x1122_3344, 2), 0x1122);
    assert_eq!(pci_config_read_word(0x1122_3344, 0), 0x3344);
    assert_eq!(command_with_enables(0x0100), 0x0107);
}

fn dev(bus: u8, device: u8, vendor_id: u16, device_id: u16, class: (u8, u8, u8)) -> PciDevice {
    PciDevice {
        bus,
        device,
        function: 0,
        vendor_id,
        device_id,
        class_code: class.0,
        subclass: class.1,
        prog_if: class.2,
        revision: 0,
        header_type: 0,
    }
}

#[test]
fn pci_devices_and_searches() {
    assert_eq!(device_from_config(0, 0, 0, 0xFFFF_FFFF, 0, 0), None);
    let d = device_from_config(0, 3, 0, 0x1237_8086, 0x0C03_3001, 0x0080_0000).unwrap();
    assert_eq!((d.vendor_id, d.device_id, d.class_code, d.subclass, d.prog_if, d.revision), (0x8086, 0x1237, 0x0C, 0x03, 0x30, 1));
    assert_eq!(d.header_type, 0x80);
    assert_eq!(d.class_name(), "USB controller");
    assert_eq!(d.vendor_name(), "Intel");
    let list = vec![
        dev(0, 1, 0x8086, 0x1234, (1, 6, 1)),
        dev(1, 0, 0x10EC, 0xC82C, (2, 0x80, 0)),
        dev(0, 3, 0x8086, 0x1237, (0x0C, 3, 0x30)),
        dev(0, 4, 0x8086, 0x1237, (0x0C, 3, 0x30)),
    ];
    assert_eq!(find_wifi_device(&list), Some(list[1]));
    assert_eq!(find_device(&list, 0x8086, 0x1237), Some(list[2]));
    assert_eq!(find_device(&list, 0x1AF4, 0x1000), None);
    assert_eq!(find_usb_controller(&list, 0x30), Some(list[2]));
    assert_eq!(find_usb_controller(&list, 0x20), None);
    assert_eq!(pci_setup_bridge_window(&list, 0), vec![(1, 0), (3, 0), (4, 0)]);
}

#[test]
fn task_stacks_and_timer() {
    let (words, sp) = init_task_stack(0x1000, 0xAAAA, 0xBBBB);
    assert_eq!(sp, 0x1000 - 56);
    assert_eq!(words[0], (0x1000 - 8, 0xBBBB));
    assert_eq!(words[2], (0x1000 - 24, 0xAAAA));
    assert_eq!(words[3], (0x1000 - 32, 0));
    let (uwords, _) = init_user_stack(0x2000, 0x40_0000, 0x7FFF_F000, 0xBBBB);
    assert_eq!(uwords[3], (0x2000 - 32, 0x7FFF_F000));
    let mut c = Context::with_current_cr3(0x9000);
    c.set_sp(sp);
    c.set_entry(0xAAAA);
    assert_eq!((c.cr3, c.rsp, c.rbx, c.r12), (0x9000, 0x1000 - 56, 0xAAAA, 0));
    assert_eq!(lapic_hz_from(0xFFFF_FFFF - 11931), 1_193_182);
    assert_eq!(lapic_timer_setup(1_000_000), (10_000, 32 + 0x2_0000));
    assert_eq!(lapic_timer_setup(50), (1, 32 + 0x2_0000));
    let io = IoApic::new(0xFEC0_0000, 0x1000);
    assert_eq!(io.base, 0xFEC0_1000);
    assert_eq!(io.set_redirection(1, 33, 0, 2), (0x12, 33, 0x13, 0x0200_0000));
    let overrides = vec![
        InterruptOverride { source: 0, global_system_interrupt: 2, flags: 0 },
        InterruptOverride { source: 1, global_system_interrupt: 9, flags: 0x0F },
        InterruptOverride { source: 0, global_system_interrupt: 5, flags: 3 },
    ];
    assert_eq!(route_legacy_irqs(&overrides), (5, 3, 9, 0x0F));
    assert_eq!(route_legacy_irqs(&Vec::new()), (2, 0, 1, 0));
}

#[test]
fn palette_round_trip() {
    assert_eq!(rgb(0x12_34_56), (0x12, 0x34, 0x56));
    assert_eq!(from_rgb(0xAB, 0xCD, 0xEF), 0xAB_CD_EF);
    assert_eq!(rgb(from_rgb(1, 2, 3)), (1, 2, 3));
}

#[test]
fn touchpad_reports_become_mouse_events() {
    let mut tp = TouchpadState::new();
    let mut m = MouseState::new();
    touchpad_poll(&mut tp, &mut m, Some(&[0, 0x11, 10, 0, 10, 0, 0, 0]));
    assert_eq!(read_event(&mut m), None);
    touchpad_init(&mut tp, 1024, 768, Some((0xFE40_0000, true)), None);
    assert!(is_present(&tp));
    // Left button pressed, one finger at (10, 10).
    touchpad_poll(&mut tp, &mut m, Some(&[0, 0x11, 10, 0, 10, 0, 0, 0]));
    assert_eq!(read_event(&mut m), Some(MouseEvent::ButtonDown(MouseButton::Left)));
    assert_eq!(read_event(&mut m), None);
    // The finger moves to (12, 200): movement tripled, vertical limited to 100.
    touchpad_poll(&mut tp, &mut m, Some(&[0, 0x11, 12, 0, 200, 0, 0, 0]));
    assert_eq!(read_event(&mut m), Some(MouseEvent::Move(6, 100)));
    // Released, no finger.
    touchpad_poll(&mut tp, &mut m, Some(&[0, 0x00, 0, 0, 0, 0, 0, 0]));
    assert_eq!(read_event(&mut m), Some(MouseEvent::ButtonUp(MouseButton::Left)));
    assert_eq!((tp.last_x, tp.last_y), (0, 0));
    // A report with another id changes nothing; a failed read is counted.
    touchpad_poll(&mut tp, &mut m, Some(&[5, 0x11, 10, 0, 10, 0, 0, 0]));
    assert_eq!(read_event(&mut m), None);
    touchpad_poll(&mut tp, &mut m, None);
    assert_eq!((tp.poll_ok, tp.poll_fail), (4, 1));
    assert!(touchpad_status(&tp).contains("Polls (ok=4, fail=1)"));
}

#[test]
fn top_bar_layers() {
    let mut ui = UiRenderer::new(200, 40, 800, 32);
    let shades: Vec<Color> = (0..28u8).map(|i| Color { r: i, g: i, b: i }).collect();
    let ops = ui.draw_top_bar("Hi", &shades);
    assert_eq!(ops.len(), 2);
    let px = |ui: &UiRenderer, x: usize, y: usize| ui.pixels[y * 200 + x];
    assert_eq!(px(&ui, 100, 3), Color { r: 3, g: 3, b: 3 });
    assert_eq!(px(&ui, 100, 27), Color { r: 45, g: 42, b: 65 });
    assert_eq!(px(&ui, 12, 14), Color { r: 255, g: 95, b: 87 });
    assert_eq!(px(&ui, 52, 14), Color { r: 39, g: 201, b: 63 });
    assert_eq!(px(&ui, 100, 30), Color { r: 0, g: 0, b: 0 });
}

#[test]
fn msix_enable_write() {
    assert!(configure_msix(None).is_none());
    let w = configure_msix(Some((0x70, 0x4007_0011))).unwrap();
    assert_eq!(w.offset, 0x70);
    assert_eq!(w.value, 0x8007_0011);
    assert_eq!(w.table_size, 8);
    assert_eq!(msix_table_size(0x07FF_0000), 0x800);
}

#[test]
fn console_scroll_moves_text_lines() {
    let mut con = Console::new();
    let mut fb = UiRenderer::new(200, 200, 800, 4);
    let red = Color { r: 255, g: 0, b: 0 };
    fb.put_pixel(40, 125, red);
    fb.put_pixel(10, 125, red);
    con.scroll(&mut fb);
    assert_eq!(fb.get_pixel(40, 125), red);
    con.init(200, 200, 800, 4);
    assert_eq!((con.text_x, con.text_y, con.text_w, con.max_rows), (36, 100, 128, 3));
    fb.put_pixel(40, 165, red);
    con.scroll(&mut fb);
    assert_eq!(fb.get_pixel(40, 105), red);
    assert_eq!(fb.get_pixel(40, 125), Color { r: 0, g: 0, b: 0 });
    assert_eq!(fb.get_pixel(40, 145), Color { r: 31, g: 29, b: 46 });
    assert_eq!(fb.get_pixel(10, 125), red);
    assert_eq!(fb.get_pixel(40, 165), red);
}

fn absent() -> (u32, u32, u32) {
    (0xFFFF_FFFF, 0xFFFF_FFFF, 0xFFFF_FFFF)
}

#[test]
fn pci_enumeration() {
    let single = vec![(0x1237_8086, 0x0600_0002, 0x0000_0000), (0x1111_8086, 0, 0), absent(), absent(), absent(), absent(), absent(), absent()];
    let found = scan_device(0, 0, &single);
    assert_eq!(found.len(), 1);
    assert_eq!((found[0].vendor_id, found[0].class_code, found[0].revision), (0x8086, 0x06, 2));
    let multi = vec![(0x7000_8086, 0x0601_0000, 0x0080_0000), absent(), (0x7010_8086, 0x0101_8000, 0), absent(), absent(), absent(), absent(), absent()];
    let found = scan_device(0, 1, &multi);
    assert_eq!(found.iter().map(|d| d.function).collect::<Vec<u8>>(), vec![0, 2]);
    assert_eq!(found[1].prog_if, 0x80);
    assert!(scan_device(0, 2, &vec![absent(); 8]).is_empty());
    let mut slots = vec![vec![absent(); 8]; 32];
    slots[1] = multi.clone();
    slots[5] = single.clone();
    let all = scan_bus(3, &slots);
    assert_eq!(all.iter().map(|d| (d.bus, d.device, d.function)).collect::<Vec<_>>(), vec![(3, 1, 0), (3, 1, 2), (3, 5, 0)]);
    assert_eq!(buses_to_scan(&single), vec![0]);
    assert_eq!(buses_to_scan(&multi), vec![0, 2]);
}

#[test]
fn hda_command_rings() {
    let (a, b) = command_rings(0x1_2345_6000);
    assert_eq!(a.len(), 6);
    assert_eq!(b.len(), 9);
    assert_eq!(a[2], RegWrite { offset: 0x40, width: 4, value: 0x2345_6000 });
    assert_eq!(a[3], RegWrite { offset: 0x44, width: 4, value: 1 });
    assert_eq!(a[5], RegWrite { offset: 0x4A, width: 2, value: 0x8000 });
    assert_eq!(b[0], RegWrite { offset: 0x4A, width: 2, value: 0 });
    assert_eq!(b[2], RegWrite { offset: 0x50, width: 4, value: 0x2345_6800 });
    assert_eq!(b[8], RegWrite { offset: 0x5C, width: 1, value: 2 });
}

#[test]
fn ata_transfer_plans() {
    assert_eq!(read_sectors(10, 0, 16), Ok(vec![]));
    assert_eq!(read_sectors(10, 1, 16), Err("Buffer too small"));
    assert_eq!(read_sectors(10, 2, 1024), Ok(vec![10, 11]));
    let mut buf = vec![7u8; 1024];
    store_sector(&mut buf, 1, &[9u8; 512]);
    assert_eq!(&buf[..512], &[7u8; 512][..]);
    assert_eq!(&buf[512..], &[9u8; 512][..]);
    assert!(write_sectors(0, &[]).is_empty());
    let w = write_sectors(4, &[1u8; 600]);
    assert_eq!(w.len(), 2);
    assert_eq!((w[0].0, w[1].0), (4, 5));
    assert_eq!(&w[1].1[..88], &[1u8; 88][..]);
    assert_eq!(&w[1].1[88..], &[0u8; 424][..]);
}

#[test]
fn lapic_calibration_floored_at_one() {
    assert_eq!(LapicTimer::new().hz, 0);
    assert_eq!(LapicTimer::calibrated(0xFFFF_FFFF).hz, 1);
    assert_eq!(LapicTimer::calibrated(0xFFFF_FFFF - 11931).hz, 1_193_182);
}

#[test]
fn config_init_after_save_restores() {
    let mut cfg = MesaConfig::default();
    set_kbd_layout(&mut cfg, KbdLayout::ES);
    set_tz_offset(&mut cfg, -5);
    set_lang(&mut cfg, Lang::ES);
    let text = set_hostname(&mut cfg, "caja");
    let mut other = MesaConfig::default();
    config_init(&mut other, Some(text.as_str()));
    assert_eq!(get_kbd_layout(&other), KbdLayout::ES);
    assert_eq!(get_tz_offset(&other), -5);
    assert_eq!(get_hostname(&other), "caja");
    assert_eq!(get_lang(&other), Lang::ES);
}

#[test]
fn us_layout_letter_case_and_digits() {
    let mut kb = keyboard_init();
    assert_eq!(decode(&mut kb, 0x1E, KbdLayout::US), Some(KeyEvent::Char('a')));
    decode(&mut kb, 0x3A, KbdLayout::US);
    assert_eq!(decode(&mut kb, 0x1E, KbdLayout::US), Some(KeyEvent::Char('A')));
    assert_eq!(decode(&mut kb, 0x02, KbdLayout::US), Some(KeyEvent::Char('1')));
    decode(&mut kb, 0x2A, KbdLayout::US);
    assert_eq!(decode(&mut kb, 0x1E, KbdLayout::US), Some(KeyEvent::Char('a')));
    assert_eq!(decode(&mut kb, 0x02, KbdLayout::US), Some(KeyEvent::Char('!')));
}
