use std::cell::RefCell;

use mesa_kernel::battery::{build_bar, format_duration, technology_from_type, BatteryTechnology};
use mesa_kernel::block::BlockDevice;
use mesa_kernel::config::KbdLayout;
use mesa_kernel::gpt::{add_gpt_partition_entry, find_free_entry, read_entry_array};
use mesa_kernel::console::{update_status_bar, Color, Console, ConsoleOp};
use mesa_kernel::html::{browser_title, render_html, HtmlOp};
use mesa_kernel::keyboard::{decode, init as keyboard_init, is_shift_pressed, KeyEvent, SpecialKey};
use mesa_kernel::mesa_fs::{
    format_header, header_fix, mesa_fs_init, plan_mesa_fs_init, table_fix, InitPlan, TableFix, mesa_fs_list_dir, mesa_fs_list_files, mesa_fs_mkdir, mesa_fs_read_file, mesa_fs_remove,
    mesa_fs_write_file, MesaFsState,
};
use mesa_kernel::mouse::{handle_data, has_events, inject_event, read_event, MouseButton, MouseEvent, MouseState, BUFFER_CAPACITY};
use mesa_kernel::nvram::{
    cmd_nvram_del, cmd_nvram_get, cmd_nvram_set, del_outcome, get_outcome, set_outcome, str_to_utf16, ShellLine, Tone, EFI_GUID,
    EFI_NOT_FOUND, EFI_STATUS,
};
use mesa_kernel::rtc::{
    apply_offset, bcd_to_binary, day_of_week, days_in_month, get_timezone_offset, is_dst, last_sunday_of_month, DateTime,
};
use mesa_kernel::ui::color_of;
use mesa_kernel::xhci::{CommandRing, EventRing};

#[test]
fn rtc_calendar() {
    assert_eq!(days_in_month(2024, 2), 29);
    assert_eq!(days_in_month(2023, 2), 28);
    assert_eq!(days_in_month(2100, 2), 28);
    assert_eq!(days_in_month(2000, 2), 29);
    assert_eq!(days_in_month(2024, 4), 30);
    assert_eq!(day_of_week(2024, 1, 1), 1);
    assert_eq!(day_of_week(2023, 12, 31), 0);
    assert_eq!(last_sunday_of_month(2024, 3), 31);
    assert_eq!(last_sunday_of_month(2024, 10), 27);
    assert_eq!(bcd_to_binary(0x59), 59);
}

#[test]
fn rtc_summer_time() {
    assert!(!is_dst(2024, 3, 31, 1));
    assert!(is_dst(2024, 3, 31, 2));
    assert!(is_dst(2024, 10, 27, 2));
    assert!(!is_dst(2024, 10, 27, 3));
    assert!(!is_dst(2024, 1, 15, 12));
    assert_eq!(get_timezone_offset(1, 2024, 7, 1, 12), 2);
    assert_eq!(get_timezone_offset(1, 2024, 12, 1, 12), 1);
}

#[test]
fn rtc_offsets_roll_over() {
    let dt = DateTime { year: 2024, month: 12, day: 31, hour: 23, minute: 30, second: 0 };
    let local = apply_offset(dt, 1);
    assert_eq!(local, DateTime { year: 2025, month: 1, day: 1, hour: 0, minute: 30, second: 0 });
    assert_eq!(local.format(), "2025-01-01 00:30:00");
    let back = apply_offset(DateTime { year: 2024, month: 3, day: 1, hour: 0, minute: 5, second: 9 }, -1);
    assert_eq!(back, DateTime { year: 2024, month: 2, day: 29, hour: 23, minute: 5, second: 9 });
    assert_eq!(back.format_time_short(), "23:05");
}

#[test]
fn keyboard_modifiers() {
    let mut kb = keyboard_init();
    assert_eq!(decode(&mut kb, 0x1E, KbdLayout::US), Some(KeyEvent::Char('a')));
    assert_eq!(decode(&mut kb, 0x9E, KbdLayout::US), None);
    decode(&mut kb, 0x2A, KbdLayout::US);
    assert!(is_shift_pressed(&kb));
    assert_eq!(decode(&mut kb, 0x1E, KbdLayout::US), Some(KeyEvent::Char('A')));
    decode(&mut kb, 0xAA, KbdLayout::US);
    assert!(!is_shift_pressed(&kb));
    decode(&mut kb, 0x3A, KbdLayout::US);
    assert_eq!(decode(&mut kb, 0x1E, KbdLayout::US), Some(KeyEvent::Char('A')));
    decode(&mut kb, 0x3A, KbdLayout::US);
    assert_eq!(decode(&mut kb, 0x1E, KbdLayout::US), Some(KeyEvent::Char('a')));
    assert_eq!(decode(&mut kb, 0xE0, KbdLayout::US), None);
    assert_eq!(decode(&mut kb, 0x48, KbdLayout::US), Some(KeyEvent::Special(SpecialKey::ArrowUp)));
    decode(&mut kb, 0x1D, KbdLayout::US);
    assert_eq!(decode(&mut kb, 0x2E, KbdLayout::US), Some(KeyEvent::Special(SpecialKey::CtrlC)));
}

#[test]
fn mouse_packets_and_queue() {
    let mut m = MouseState::new();
    handle_data(&mut m, 0x09);
    assert!(!has_events(&m));
    m.mark_initialized();
    handle_data(&mut m, 0x09);
    handle_data(&mut m, 0);
    handle_data(&mut m, 0);
    handle_data(&mut m, 0x08);
    handle_data(&mut m, 5);
    handle_data(&mut m, 3);
    assert_eq!(read_event(&mut m), Some(MouseEvent::ButtonDown(MouseButton::Left)));
    assert_eq!(read_event(&mut m), Some(MouseEvent::ButtonUp(MouseButton::Left)));
    assert_eq!(read_event(&mut m), Some(MouseEvent::Move(5, -3)));
    assert_eq!(read_event(&mut m), None);
    for i in 0..(BUFFER_CAPACITY as i32 + 5) {
        inject_event(&mut m, MouseEvent::Scroll(i));
    }
    assert_eq!(m.events.len(), BUFFER_CAPACITY);
    assert_eq!(read_event(&mut m), Some(MouseEvent::Scroll(0)));
}

#[test]
fn console_cursor_and_status() {
    let mut con = Console::new();
    assert!(update_status_bar(&con, 1, 2, 1, 0, 0, 0, 0, 0, 0, false).is_none());
    con.init(800, 600, 3200, 32);
    let ops = con.write_str("ab\nc");
    let glyphs: Vec<char> = ops
        .iter()
        .filter_map(|o| match o {
            ConsoleOp::Glyph { c, .. } => Some(*c),
            _ => None,
        })
        .collect();
    assert_eq!(glyphs, vec!['a', 'b', 'c']);
    assert_eq!((con.col, con.row), (1, 1));
    con.put_char('\n');
    assert_eq!(con.col, 0);
    let bar = update_status_bar(&con, 100, 200, 4, 7, 5, 9, 5, 10, 80, true).unwrap();
    assert_eq!(bar.text, "BAT: 80+% | RAM: 100/200 MB | DISK: 5/10 MB | CPUs: 4 | 07:05:09");
}

#[test]
fn html_layout() {
    let iris = color_of(0xC4A7E7);
    let text = color_of(0xE0DEF4);
    assert_eq!(
        render_html("<H1>Hi</H1>x", 800),
        vec![
            HtmlOp::Glyph { x: 20, y: 60, c: 'H', color: iris },
            HtmlOp::Glyph { x: 28, y: 60, c: 'i', color: iris },
            HtmlOp::Glyph { x: 20, y: 90, c: 'x', color: text },
        ]
    );
    assert_eq!(
        render_html("<hr>", 800),
        vec![HtmlOp::Rule { x: 20, y: 60, w: 760, h: 2, color: Color { r: 0x90, g: 0x8C, b: 0xAA } }]
    );
    assert_eq!(browser_title("/a.html"), "Mesa Browser - /a.html");
}

#[test]
fn battery_texts() {
    assert_eq!(technology_from_type("li-ion", 0), BatteryTechnology::LiIon);
    assert_eq!(technology_from_type("Pb acid", 0), BatteryTechnology::LeadAcid);
    assert_eq!(technology_from_type("", 1), BatteryTechnology::Rechargeable);
    assert_eq!(technology_from_type("xyz", 1), BatteryTechnology::Unknown);
    assert_eq!(format_duration(3725), "1:02:05");
    assert_eq!(format_duration(125), "2:05");
    assert_eq!(format_duration(0), "--:--");
    assert_eq!(build_bar(50, 4), "[\u{2588}\u{2588}\u{2591}\u{2591}]");
    assert_eq!(build_bar(200, 2), "[\u{2588}\u{2588}]");
}

#[test]
fn xhci_rings_wrap_with_link() {
    let mut r = CommandRing::new(0x1000, 3);
    assert_eq!(r.push_raw([1, 2, 3, 0]), vec![(0, [1, 2, 3, 1])]);
    assert_eq!(r.push_raw([4, 5, 6, 0]), vec![(1, [4, 5, 6, 1]), (2, [0x1000, 0, 0, 6147])]);
    assert_eq!((r.index, r.cycle), (0, false));
    assert_eq!(r.push_raw([7, 8, 9, 1]), vec![(0, [7, 8, 9, 0])]);
    let mut e = EventRing::new(0, 2);
    assert_eq!(e.poll([0, 0, 0, 1]), Some([0, 0, 0, 1]));
    assert_eq!(e.poll([0, 0, 0, 0]), None);
    assert_eq!(e.poll([9, 0, 0, 1]), Some([9, 0, 0, 1]));
    assert_eq!((e.index, e.cycle), (0, false));
}

struct MemStore {
    vars: RefCell<Vec<(Vec<u16>, Vec<u8>)>>,
}

impl MemStore {
    fn set_var(&self, name: &[u16], _guid: &EFI_GUID, data: &[u8]) -> Result<(), EFI_STATUS> {
        let mut v = self.vars.borrow_mut();
        v.retain(|(n, _)| n.as_slice() != name);
        v.push((name.to_vec(), data.to_vec()));
        Ok(())
    }
    fn get_var(&self, name: &[u16], _guid: &EFI_GUID) -> Result<Vec<u8>, EFI_STATUS> {
        self.vars
            .borrow()
            .iter()
            .find(|(n, _)| n.as_slice() == name)
            .map(|(_, d)| d.clone())
            .ok_or(EFI_STATUS(EFI_NOT_FOUND))
    }
    fn delete_var(&self, name: &[u16], _guid: &EFI_GUID) -> Result<(), EFI_STATUS> {
        let mut v = self.vars.borrow_mut();
        let before = v.len();
        v.retain(|(n, _)| n.as_slice() != name);
        if v.len() == before { Err(EFI_STATUS(EFI_NOT_FOUND)) } else { Ok(()) }
    }
    fn run_set(&self, args: &[&str]) -> ShellLine {
        match cmd_nvram_set(args) {
            Err(l) => l,
            Ok(c) => set_outcome(args[0], self.set_var(&c.name, &c.guid, &c.data)),
        }
    }
    fn run_get(&self, args: &[&str]) -> ShellLine {
        match cmd_nvram_get(args) {
            Err(l) => l,
            Ok(c) => get_outcome(args[0], self.get_var(&c.name, &c.guid)),
        }
    }
    fn run_del(&self, args: &[&str]) -> ShellLine {
        match cmd_nvram_del(args) {
            Err(l) => l,
            Ok(c) => del_outcome(args[0], self.delete_var(&c.name, &c.guid)),
        }
    }
}

#[test]
fn nvram_commands_round_trip() {
    let store = MemStore { vars: RefCell::new(Vec::new()) };
    let call = cmd_nvram_set(&["color", "azul", "claro"]).ok().unwrap();
    assert_eq!(call.name, str_to_utf16("color"));
    assert_eq!(call.data, b"azul claro".to_vec());
    assert_eq!(call.guid, mesa_kernel::nvram::mesa_kernel_guid());
    let set = store.run_set(&["color", "azul", "claro"]);
    assert_eq!(set.tone, Tone::Success);
    assert_eq!(set.text, "Variable 'color' guardada en NVRAM");
    assert_eq!(store.run_set(&["solo"]).text, "Uso: nvram_set <nombre> <valor>");
    let got = store.run_get(&["color"]);
    assert_eq!(got.text, "Variable 'color': \"azul claro\"");
    store.set_var(&str_to_utf16("raw"), &mesa_kernel::nvram::mesa_kernel_guid(), &[0xFF, 0xFE]).unwrap();
    assert_eq!(store.run_get(&["raw"]).text, "Variable 'raw' (2 bytes)");
    assert_eq!(store.run_del(&["color"]).text, "Variable 'color' eliminada de NVRAM");
    let missing = store.run_get(&["color"]);
    assert_eq!(missing.tone, Tone::Error);
    assert_eq!(missing.text, "Variable 'color' no encontrada (EFI_NOT_FOUND)");
    assert_eq!(store.run_get(&[]).text, "Uso: nvram_get <nombre>");
    assert_eq!(str_to_utf16("Ab"), vec![0x41, 0x62, 0]);
    assert_eq!(EFI_STATUS(EFI_NOT_FOUND).describe(), "EFI_NOT_FOUND (0x800000000000000E)");
}

struct MemDisk {
    data: RefCell<Vec<u8>>,
}

impl MemDisk {
    fn new(sectors: usize) -> Self {
        MemDisk { data: RefCell::new(vec![0u8; sectors * 512]) }
    }
    fn put(&self, lba: usize, bytes: &[u8]) {
        self.data.borrow_mut()[lba * 512..lba * 512 + bytes.len()].copy_from_slice(bytes);
    }
}

impl BlockDevice for MemDisk {
    fn read(&self, lba: u64, count: u16, buffer: &mut [u8]) -> Result<(), &'static str> {
        let start = lba as usize * 512;
        let n = count as usize * 512;
        let d = self.data.borrow();
        if start + n > d.len() || buffer.len() < n {
            return Err("out of range");
        }
        buffer[..n].copy_from_slice(&d[start..start + n]);
        Ok(())
    }
    fn write(&mut self, lba: u64, count: u16, buffer: &[u8]) -> Result<(), &'static str> {
        let start = lba as usize * 512;
        let n = count as usize * 512;
        let mut d = self.data.borrow_mut();
        if start + n > d.len() || buffer.len() < n {
            return Err("out of range");
        }
        d[start..start + n].copy_from_slice(&buffer[..n]);
        Ok(())
    }
    fn capacity(&self) -> u64 {
        (self.data.borrow().len() / 512) as u64
    }
}

fn mounted() -> (MemDisk, MesaFsState) {
    let disk = MemDisk::new(400);
    disk.put(100, &format_header(200));
    (disk, MesaFsState { initialized: true, free_start_lba: 100, free_sectors: 200 })
}

#[test]
fn mesafs_write_read_remove() {
    let (mut disk, st) = mounted();
    mesa_fs_write_file(&mut disk, &st, "hola.txt", b"hello").unwrap();
    assert_eq!(mesa_fs_read_file(&disk, &st, "hola.txt").unwrap(), b"hello".to_vec());
    let big: Vec<u8> = (0..1300u32).map(|i| (i % 251) as u8).collect();
    mesa_fs_write_file(&mut disk, &st, "big.bin", &big).unwrap();
    assert_eq!(mesa_fs_read_file(&disk, &st, "big.bin").unwrap(), big);
    let names: Vec<String> = mesa_fs_list_files(&disk, &st).into_iter().map(|f| f.0).collect();
    assert!(names.contains(&"hola.txt".to_string()));
    assert!(names.contains(&"big.bin".to_string()));
    mesa_fs_mkdir(&mut disk, &st, "docs").unwrap();
    assert!(mesa_fs_list_dir(&disk, &st).iter().any(|e| e.0 == "docs"));
    mesa_fs_remove(&mut disk, &st, "hola.txt").unwrap();
    assert!(mesa_fs_read_file(&disk, &st, "hola.txt").is_none());
    assert_eq!(mesa_fs_read_file(&disk, &st, "big.bin").unwrap(), big);
}

#[test]
fn mesafs_refusals() {
    let (mut disk, st) = mounted();
    let none = MesaFsState::empty();
    assert_eq!(mesa_fs_write_file(&mut disk, &none, "a", b"x").unwrap_err(), "MesaFS no inicializado");
    let small = MesaFsState { free_sectors: 3, ..st };
    assert_eq!(mesa_fs_write_file(&mut disk, &small, "a", &[0u8; 1025]).unwrap_err(), "No hay suficiente espacio libre");
    assert!(mesa_fs_remove(&mut disk, &st, "nada").is_err());
    assert!(mesa_fs_read_file(&disk, &none, "a").is_none());
}

#[test]
fn mesafs_formats_gpt_partition() {
    let mut disk = MemDisk::new(400);
    let mut h = vec![0u8; 512];
    h[0..8].copy_from_slice(b"EFI PART");
    h[72..80].copy_from_slice(&2u64.to_le_bytes());
    h[80..84].copy_from_slice(&4u32.to_le_bytes());
    h[84..88].copy_from_slice(&128u32.to_le_bytes());
    disk.put(1, &h);
    let mut e = vec![0u8; 512];
    e[0..16].copy_from_slice(&[0xA2, 0xA0, 0xD0, 0xEB, 0xE5, 0xB9, 0x33, 0x44, 0x87, 0xC0, 0x68, 0xB6, 0xB7, 0x26, 0x99, 0xC7]);
    e[32..40].copy_from_slice(&100u64.to_le_bytes());
    e[40..48].copy_from_slice(&299u64.to_le_bytes());
    disk.put(2, &e);
    let mut st = MesaFsState::empty();
    assert!(mesa_fs_init(&mut disk, &mut st));
    assert_eq!(st, MesaFsState { initialized: true, free_start_lba: 100, free_sectors: 200 });
    mesa_fs_write_file(&mut disk, &st, "x", b"1").unwrap();
    let mut again = MesaFsState::empty();
    assert!(!mesa_fs_init(&mut disk, &mut again));
    assert_eq!(mesa_fs_read_file(&disk, &again, "x").unwrap(), b"1".to_vec());
}

#[test]
fn gpt_free_entry_scan_on_disk() {
    let disk = MemDisk::new(8);
    let mut full = vec![0u8; 512];
    for k in 0..4 {
        full[k * 128] = 1;
    }
    disk.put(2, &full);
    let mut half = vec![0u8; 512];
    half[0] = 1;
    disk.put(3, &half);
    let (lba, off, s) = find_free_entry(&disk, 2, 128, 4).unwrap();
    assert_eq!((lba, off), (3, 128));
    assert_eq!(s, half);
    assert!(find_free_entry(&disk, 2, 128, 1).is_none());
    let joined = read_entry_array(&disk, 2, 2);
    assert_eq!(joined.len(), 1024);
    assert_eq!(&joined[..512], &full[..]);
    let past_end = read_entry_array(&disk, 7, 3);
    assert_eq!(past_end.len(), 512);
}

#[test]
fn mesafs_refusals_leave_disk_unchanged() {
    let (mut disk, st) = mounted();
    mesa_fs_write_file(&mut disk, &st, "a.txt", b"uno").unwrap();
    let before = disk.data.borrow().clone();
    assert_eq!(mesa_fs_write_file(&mut disk, &st, "a.txt", b"dos").unwrap_err(), "El archivo ya existe");
    assert_eq!(mesa_fs_mkdir(&mut disk, &st, "x/a.txt").unwrap_err(), "La entrada ya existe");
    assert_eq!(mesa_fs_remove(&mut disk, &st, "b.txt").unwrap_err(), "Entrada no encontrada");
    assert_eq!(*disk.data.borrow(), before);
}

#[test]
fn mesafs_init_plan_decisions() {
    let parts = [(100u64, 199u64), (200, 299), (300, 399)];
    let mut magic = vec![0u8; 512];
    magic[0..8].copy_from_slice(b"MESA_FS1");
    let plain = vec![0u8; 512];
    // the first partition whose first sector holds the magic is mounted
    assert_eq!(plan_mesa_fs_init(&parts, &[Some(plain.clone()), None, Some(magic.clone())]), InitPlan::Mount(2));
    assert_eq!(plan_mesa_fs_init(&parts, &[Some(magic.clone())]), InitPlan::Mount(0));
    // no magic anywhere: the last partition is formatted
    assert_eq!(plan_mesa_fs_init(&parts, &[None, Some(plain.clone()), Some(plain.clone())]), InitPlan::Format(300, 399));
    // nothing listed, or not every partition looked at
    assert_eq!(plan_mesa_fs_init(&[], &[]), InitPlan::Nothing);
    assert_eq!(plan_mesa_fs_init(&parts, &[Some(plain.clone())]), InitPlan::Nothing);
}

#[test]
fn mesafs_mount_repairs() {
    let mut h = vec![0u8; 512];
    h[0..8].copy_from_slice(b"MESA_FS1");
    h[12..16].copy_from_slice(&3u32.to_le_bytes());
    let fixed = header_fix(&h, 200).unwrap();
    assert_eq!(u64::from_le_bytes(fixed[16..24].try_into().unwrap()), 200);
    assert_eq!(u32::from_le_bytes(fixed[12..16].try_into().unwrap()), 3);
    let mut sized = h.clone();
    sized[16..24].copy_from_slice(&50u64.to_le_bytes());
    assert!(header_fix(&sized, 200).is_none());
    let empty = vec![0u8; 512];
    match table_fix(&h, Some(&empty)) {
        TableFix::ClearCount(c) => {
            assert_eq!(u32::from_le_bytes(c[12..16].try_into().unwrap()), 0);
            assert_eq!(&c[0..8], b"MESA_FS1");
        }
        other => panic!("unexpected {:?}", other),
    }
    let mut used = vec![0u8; 512];
    used[5] = 1;
    assert_eq!(table_fix(&h, Some(&used)), TableFix::Keep);
    let mut zero_count = h.clone();
    zero_count[12..16].copy_from_slice(&0u32.to_le_bytes());
    assert_eq!(table_fix(&zero_count, Some(&empty)), TableFix::Keep);
    assert_eq!(table_fix(&h, None), TableFix::ZeroTable);
}

#[test]
fn mesafs_init_mounts_existing_not_last() {
    let mut disk = MemDisk::new(400);
    let mut h = vec![0u8; 512];
    h[0..8].copy_from_slice(b"EFI PART");
    h[72..80].copy_from_slice(&2u64.to_le_bytes());
    h[80..84].copy_from_slice(&4u32.to_le_bytes());
    h[84..88].copy_from_slice(&128u32.to_le_bytes());
    disk.put(1, &h);
    let mut e = vec![0u8; 512];
    for (k, (start, end)) in [(100u64, 199u64), (200, 299)].iter().enumerate() {
        e[k * 128] = 0xA2;
        e[k * 128 + 32..k * 128 + 40].copy_from_slice(&start.to_le_bytes());
        e[k * 128 + 40..k * 128 + 48].copy_from_slice(&end.to_le_bytes());
    }
    disk.put(2, &e);
    // an existing file system in the first partition, its size field left at zero
    let mut fs = vec![0u8; 512];
    fs[0..8].copy_from_slice(b"MESA_FS1");
    disk.put(100, &fs);
    let mut st = MesaFsState::empty();
    assert!(!mesa_fs_init(&mut disk, &mut st));
    assert_eq!(st, MesaFsState { initialized: true, free_start_lba: 100, free_sectors: 100 });
    let mut back = vec![0u8; 512];
    disk.read(100, 1, &mut back).unwrap();
    assert_eq!(u64::from_le_bytes(back[16..24].try_into().unwrap()), 100);
    // the last partition was not formatted
    let mut last = vec![0u8; 512];
    disk.read(200, 1, &mut last).unwrap();
    assert_eq!(&last[0..8], &[0u8; 8]);
}

#[test]
fn console_glyphs_stay_in_text_area() {
    let mut con = Console::new();
    con.init(200, 180, 800, 4);
    let text = "abcdefghijklmnopqrstuvwxyz\tABC\nline two\r\x08xyz 0123456789 0123456789 0123456789";
    let ops = con.write_str(text);
    let mut glyphs = 0;
    for op in ops {
        if let ConsoleOp::Glyph { x, y, .. } = op {
            glyphs += 1;
            assert!(x >= con.text_x && x + 8 <= con.text_x + con.text_w);
            assert!(y >= con.text_y && y + 16 <= con.text_y + con.text_h);
        }
    }
    assert!(glyphs > 0);
    assert!(con.col < con.max_cols && con.row < con.max_rows);
}

#[test]
fn gpt_add_partition_on_disk() {
    let mut disk = MemDisk::new(8);
    let mut h = vec![0u8; 512];
    h[0..8].copy_from_slice(b"EFI PART");
    h[72..80].copy_from_slice(&2u64.to_le_bytes());
    h[80..84].copy_from_slice(&4u32.to_le_bytes());
    h[84..88].copy_from_slice(&128u32.to_le_bytes());
    disk.put(1, &h);
    let mut e = vec![0u8; 512];
    e[0] = 0xAB;
    disk.put(2, &e);
    assert!(add_gpt_partition_entry(&mut disk, 3, 100, 199, "MesaFS"));
    let mut entries = vec![0u8; 512];
    disk.read(2, 1, &mut entries).unwrap();
    // Basic Data type GUID in the second slot, then the extent
    assert_eq!(&entries[128..132], &[0xA2, 0xA0, 0xD0, 0xEB]);
    assert_eq!(u64::from_le_bytes(entries[128 + 32..128 + 40].try_into().unwrap()), 100);
    assert_eq!(u64::from_le_bytes(entries[128 + 40..128 + 48].try_into().unwrap()), 199);
    assert_eq!(entries[0], 0xAB);
    let mut nh = vec![0u8; 512];
    disk.read(1, 1, &mut nh).unwrap();
    assert_eq!(u32::from_le_bytes(nh[88..92].try_into().unwrap()), mesa_kernel::usb::crc32(&entries));
    let mut check = nh[0..92].to_vec();
    check[16..20].copy_from_slice(&[0, 0, 0, 0]);
    assert_eq!(u32::from_le_bytes(nh[16..20].try_into().unwrap()), mesa_kernel::usb::crc32(&check));
    // no GPT: refused, nothing written
    let mut blank = MemDisk::new(4);
    assert!(!add_gpt_partition_entry(&mut blank, 3, 1, 2, "x"));
}
