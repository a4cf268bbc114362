use mesa_kernel::console::Color;
use mesa_kernel::usb::{completion_code_to_string, UsbDeviceState, UsbPhase};
use mesa_kernel::usb_enum::{
    address_input_context, command_step, configure_input_context, context_command_trb, endpoint_dci,
    control_in_trbs, control_no_data_trbs, gpt_entry_extent, gpt_free_space, gpt_sane, mbr_free_space, request_sense_wrapper, sense_codes, write_step, WriteStep, ep0_max_packet, mbr_partitions, transfer_step, read_capacity, ring_link_words, xhci_endpoint_type, CommandStep, MbrPartition,
};
use mesa_kernel::usb_status::{usb_status_report, UsbControllerInfo};
use mesa_kernel::xhci_port::PortStatus;

#[test]
fn ep0_packet_sizes() {
    assert_eq!(ep0_max_packet(1), 8);
    assert_eq!(ep0_max_packet(2), 8);
    assert_eq!(ep0_max_packet(3), 64);
    assert_eq!(ep0_max_packet(4), 512);
    assert_eq!(ep0_max_packet(9), 64);
}

#[test]
fn address_context_words() {
    let w = address_input_context(2, 3, 0x1_2345_6780, 8);
    assert_eq!(
        w,
        vec![
            (0, 0),
            (1, 1),
            (8, (3 << 20) | (1 << 27)),
            (9, 3 << 16),
            (10, 0),
            (11, 0),
            (16, 0),
            (17, (3 << 1) | (4 << 3) | (64 << 16)),
            (18, 0x2345_6781),
            (19, 1),
            (20, 8),
        ]
    );
}

#[test]
fn configure_context_words() {
    // bulk OUT 0x02 and bulk IN 0x81, 64-byte contexts (16 dwords)
    let eps = [(0x02u8, 0x02u8, 512u16, Some(0x1000u64)), (0x81, 0x02, 512, Some(0x2000))];
    let w = configure_input_context(&eps, 3, 0, 16);
    assert_eq!(endpoint_dci(0x02), 4);
    assert_eq!(endpoint_dci(0x81), 3);
    assert_eq!(xhci_endpoint_type(0x02, false), 2);
    assert_eq!(xhci_endpoint_type(0x02, true), 6);
    assert_eq!(xhci_endpoint_type(0x00, true), 4);
    assert_eq!(
        w,
        vec![
            (81, (3 << 1) | (2 << 3) | (512 << 16)),
            (82, 0x1001),
            (83, 0),
            (84, 8),
            (65, (3 << 1) | (6 << 3) | (512 << 16)),
            (66, 0x2001),
            (67, 0),
            (68, 8),
            (0, 0),
            (1, (1 << 4) | (1 << 3)),
            (16, (4 << 27) | (3 << 20)),
            (17, 1 << 16),
        ]
    );
    // an endpoint without a ring is still added, with no context written
    let w = configure_input_context(&[(0x83, 0x03, 8, None)], 2, 1, 8);
    assert_eq!(w, vec![(0, 0), (1, 1 << 7), (8, (7 << 27) | (2 << 20)), (9, 2 << 16)]);
}

#[test]
fn command_trbs_and_links() {
    assert_eq!(context_command_trb(0x1_0000_0040, 5, 11, true), [0x40, 1, 0, (5 << 24) | (11 << 10) | (1 << 9)]);
    assert_eq!(context_command_trb(0x40, 5, 12, false), [0x40, 0, 0, (5 << 24) | (12 << 10)]);
    assert_eq!(ring_link_words(0x2_0000_1008), [0x1000, 2, 0, (6 << 10) | 3]);
}

#[test]
fn command_retry_rules() {
    assert_eq!(command_step(0, Some(1), 0), CommandStep::Done);
    assert_eq!(command_step(0, Some(17), 0), CommandStep::Retry(17));
    assert_eq!(command_step(2, Some(17), 17), CommandStep::Failed(17));
    assert_eq!(command_step(1, Some(4), 17), CommandStep::Failed(4));
    assert_eq!(command_step(1, None, 17), CommandStep::Failed(17));
    assert_eq!(completion_code_to_string(17), "Parameter Error");
    assert_eq!(completion_code_to_string(30), "Unknown");
}

#[test]
fn capacity_and_mbr() {
    assert_eq!(read_capacity(&[0, 0x0F, 0xFF, 0xFF, 0, 0, 2, 0]), (0x10_0000, 512));
    let mut mbr = vec![0u8; 512];
    assert!(mbr_partitions(&mbr).is_none());
    mbr[510] = 0x55;
    mbr[511] = 0xAA;
    mbr[446 + 4] = 0x0C;
    mbr[446 + 8..446 + 12].copy_from_slice(&2048u32.to_le_bytes());
    mbr[446 + 12..446 + 16].copy_from_slice(&4096u32.to_le_bytes());
    mbr[462 + 4] = 0xEE;
    mbr[462 + 8..462 + 12].copy_from_slice(&1u32.to_le_bytes());
    mbr[462 + 12..462 + 16].copy_from_slice(&10u32.to_le_bytes());
    let (parts, gpt) = mbr_partitions(&mbr).unwrap();
    assert!(gpt);
    assert_eq!(
        parts,
        vec![
            MbrPartition { ptype: 0x0C, lba_start: 2048, lba_end: 6143, size_mb: 2 },
            MbrPartition { ptype: 0xEE, lba_start: 1, lba_end: 10, size_mb: 0 },
        ]
    );
}

fn text_of(v: &[mesa_kernel::console::Styled]) -> String {
    v.iter().map(|s| s.text.clone()).collect::<Vec<_>>().concat()
}

#[test]
fn usb_status_without_controller() {
    let r = usb_status_report(None, &[], &[]);
    assert_eq!(r.len(), 1);
    assert_eq!(r[0].text, "  [\u{2717}] Controlador xHCI no inicializado.\n");
    assert_eq!(r[0].color, Color { r: 0xEB, g: 0x6F, b: 0x92 });
}

#[test]
fn usb_status_report_text() {
    let c = UsbControllerInfo {
        bar0: 0xFE00_0000,
        context_64: false,
        max_slots: 32,
        num_ports: 2,
        dboff: 0x2000,
        addr64: true,
        halted: false,
        host_error: false,
    };
    let ports = [
        PortStatus { connected: true, enabled: true, link_state: 0, speed: 3 },
        PortStatus { connected: false, enabled: false, link_state: 5, speed: 0 },
    ];
    let mut dev = UsbDeviceState::empty();
    dev.active = true;
    dev.slot_id = 1;
    dev.port = 0;
    dev.speed = 3;
    dev.vendor_id = 0x0781;
    dev.product_id = 0x5567;
    dev.class = 0x08;
    dev.num_interfaces = 1;
    dev.num_endpoints = 2;
    dev.config_val = 1;
    dev.phase = UsbPhase::SetConfigurationDone;
    dev.num_partitions = 1;
    dev.part_type[0] = 0x0C;
    dev.part_lba_start[0] = 2048;
    dev.part_size_mb[0] = 2;
    let t = text_of(&usb_status_report(Some(c), &ports, &[dev]));
    assert!(t.starts_with("[xHCI] HCCPARAMS1 CSZ: false (context size = 32 bytes)\n"));
    assert!(t.contains("  \u{2502}  BAR0:         0xfe000000\n"));
    assert!(t.contains("\u{2713} RUNNING\n"));
    assert!(t.contains("  \u{2502}  Puerto  1:  \u{25cf} CONECTADO [High Speed (480 Mb/s)] HABILITADO\n"));
    assert!(t.contains("  \u{2502}  Puerto  2:  \u{25cb} vac\u{ed}o\n"));
    assert!(t.contains("  \u{2502}  Slot  1 \u{2502} Puerto  1 \u{2502} HS \u{2502} \u{2713} COMPLETAMENTE OPERATIVO\n"));
    assert!(t.contains("  \u{2502}     VID:PID = 0x0781:0x5567\n"));
    assert!(t.contains("  \u{2502}     Clase:  0x08 \u{2014} Mass Storage (Disco)\n"));
    assert!(t.contains("  \u{2502}       #1   0x0c FAT32         LBA 2048        2 MB\n"));
    assert!(t.contains("[\u{2713}Slot][\u{2713}Addr][\u{2713}DevDesc][\u{2713}CfgDesc][\u{2713}EPs][\u{2713}SetCfg]"));
    assert!(t.ends_with("HC ACTIVO  \u{2502}  1/2 puertos usados  \u{2502}  1 dispositivo(s) OK\n\n"));
}

#[test]
fn usb_status_no_devices_line() {
    let c = UsbControllerInfo {
        bar0: 0x1000,
        context_64: true,
        max_slots: 8,
        num_ports: 0,
        dboff: 0x100,
        addr64: false,
        halted: true,
        host_error: false,
    };
    let mut idle = UsbDeviceState::empty();
    idle.phase = UsbPhase::Failed;
    let t = text_of(&usb_status_report(Some(c), &[], &[idle]));
    assert!(t.contains("\u{26a0} HALTED\n"));
    assert!(t.contains("(ning\u{fa}n dispositivo enumerado todav\u{ed}a)"));
    assert!(t.contains("HC INACTIVO"));
    assert!(t.contains("0/0 puertos usados"));
}

#[test]
fn control_transfer_trbs() {
    let (setup, data, status) = control_in_trbs(0x80, 6, 0x0100, 0, 18, 0x1_0000_2040);
    assert_eq!(setup, [0x0100_0680, 18 << 16, 8, (2 << 10) | (1 << 6) | (3 << 16)]);
    assert_eq!(data, [0x2040, 1, 18, (3 << 10) | (1 << 16)]);
    assert_eq!(status, [0, 0, 0, (4 << 10) | (1 << 5)]);
    let (setup, status) = control_no_data_trbs(0x00, 9, 1, 0);
    assert_eq!(setup, [0x0001_0900, 0, 8, (2 << 10) | (1 << 6)]);
    assert_eq!(status, [0, 0, 0, (4 << 10) | (1 << 5) | (1 << 16)]);
}

#[test]
fn transfer_retry_rules() {
    assert_eq!(transfer_step(0, 5, Some((13, 32))), CommandStep::Done);
    assert_eq!(transfer_step(0, 5, Some((17, 32))), CommandStep::Retry(17));
    assert_eq!(transfer_step(4, 5, Some((17, 32))), CommandStep::Failed(17));
    assert_eq!(transfer_step(1, 5, Some((6, 32))), CommandStep::Failed(6));
    assert_eq!(transfer_step(1, 5, None), CommandStep::Retry(0));
    assert_eq!(transfer_step(4, 5, None), CommandStep::Failed(0));
    assert_eq!(transfer_step(0, 5, Some((1, 33))), CommandStep::Retry(1));
}

#[test]
fn write_retry_and_sense() {
    assert_eq!(write_step(0, 0x53425355, 0), WriteStep::Done);
    assert_eq!(write_step(0, 0x53425355, 1), WriteStep::SenseThenRetry);
    assert_eq!(write_step(1, 0x53425355, 1), WriteStep::Failed);
    assert_eq!(write_step(0, 0xAAAA_AAAA, 0), WriteStep::Failed);
    let w = request_sense_wrapper(7);
    let b = w.to_bytes();
    assert_eq!(b.len(), 31);
    assert_eq!(&b[0..4], &0x43425355u32.to_le_bytes());
    assert_eq!(&b[4..8], &7u32.to_le_bytes());
    assert_eq!(&b[8..12], &18u32.to_le_bytes());
    assert_eq!(b[12], 0x80);
    assert_eq!(b[14], 6);
    assert_eq!(&b[15..21], &[0x03, 0, 0, 0, 18, 0]);
    let mut sense = vec![0u8; 18];
    sense[2] = 0xF5;
    sense[12] = 0x24;
    sense[13] = 0x01;
    assert_eq!(sense_codes(&sense), (5, 0x24, 0x01));
}

#[test]
fn free_space_rules() {
    assert!(gpt_sane(34, 1000, 128, 128));
    assert!(!gpt_sane(34, 1000, 0, 128));
    assert!(!gpt_sane(34, 1000, 129, 128));
    assert!(!gpt_sane(34, 1000, 4, 64));
    assert!(!gpt_sane(0, 1000, 4, 128));
    assert!(!gpt_sane(40, 40, 4, 128));
    let mut types = [0u8; 8];
    let mut ends = [0u64; 8];
    types[0] = 0x0C;
    ends[0] = 5000;
    types[1] = 0xEE;
    ends[1] = 90000;
    assert_eq!(mbr_free_space(&types, &ends, 2, 10000), (5001, 4999));
    assert_eq!(mbr_free_space(&types, &ends, 0, 10000), (37048, 0));
    assert_eq!(gpt_free_space(2047, 9966, 10000), Some((2048, 7919)));
    // usable range used up: the rest of the disk
    assert_eq!(gpt_free_space(9966, 9966, 10000), Some((9967, 33)));
    assert_eq!(gpt_free_space(9999, 9966, 10000), None);
    let mut e = vec![0u8; 512];
    e[32..40].copy_from_slice(&2048u64.to_le_bytes());
    e[40..48].copy_from_slice(&(2048u64 + 4096 - 1).to_le_bytes());
    assert_eq!(gpt_entry_extent(&e, 0), (2048, 6143, 2));
}
