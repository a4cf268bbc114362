use mesa_kernel::elf::{
    parse_header, plan_elf_load, randomize_addr, segment_access, ElfError, ElfLimits, PageAccess,
};
use mesa_kernel::gpt::{free_slot, partition_entry, place_partition_entry, refresh_header, table_info, table_sectors};
use mesa_kernel::usb::crc32;

fn put16(v: &mut Vec<u8>, off: usize, x: u16) {
    v[off..off + 2].copy_from_slice(&x.to_le_bytes());
}
fn put32(v: &mut Vec<u8>, off: usize, x: u32) {
    v[off..off + 4].copy_from_slice(&x.to_le_bytes());
}
fn put64(v: &mut Vec<u8>, off: usize, x: u64) {
    v[off..off + 8].copy_from_slice(&x.to_le_bytes());
}

/// A one-segment executable: header, one program header, then code bytes.
fn image(e_type: u16, flags: u32, vaddr: u64, filesz: u64, memsz: u64) -> Vec<u8> {
    let mut v = vec![0u8; 160];
    v[0..4].copy_from_slice(&[0x7f, b'E', b'L', b'F']);
    v[4] = 2;
    v[5] = 1;
    put16(&mut v, 16, e_type);
    put16(&mut v, 18, 62);
    put32(&mut v, 20, 1);
    put64(&mut v, 24, 0x401000);
    put64(&mut v, 32, 64);
    put16(&mut v, 52, 64);
    put16(&mut v, 54, 56);
    put16(&mut v, 56, 1);
    put32(&mut v, 64, 1);
    put32(&mut v, 68, flags);
    put64(&mut v, 72, 0);
    put64(&mut v, 80, vaddr);
    put64(&mut v, 96, filesz);
    put64(&mut v, 104, memsz);
    put64(&mut v, 112, 0x1000);
    v
}

fn limits() -> ElfLimits {
    ElfLimits { user_addr_max: 0x8000_0000_0000, stack_top: 0x7fff_ffff_f000, stack_size: 0x10000, code_entropy_bits: 4 }
}

#[test]
fn elf_static_executable_plan() {
    let img = image(2, 5, 0x400000, 160, 0x2000);
    let plan = plan_elf_load(&img, &limits(), 7, 0).unwrap();
    assert_eq!(plan.delta, 0);
    assert_eq!(plan.entry, 0x401000);
    assert_eq!(plan.stack_top, 0x7fff_ffff_f000 - 8);
    assert_eq!(plan.stack_bottom, 0x7fff_ffff_f000 - 0x10000);
    assert_eq!(plan.segments.len(), 1);
    let s = plan.segments[0];
    assert_eq!(s.map_base, 0x400000);
    assert_eq!(s.map_len, 0x2000);
    assert_eq!(s.access, PageAccess::ReadExec);
    assert_eq!(s.vaddr, 0x400000);
    assert_eq!(s.file_offset, 0);
    assert_eq!(s.file_len, 160);
    assert_eq!(s.mem_len, 0x2000);
    assert_eq!(s.zero_len, 0x2000 - 160);
}

#[test]
fn elf_position_independent_is_randomised() {
    let img = image(3, 6, 0x1000, 100, 0x1000);
    let plan = plan_elf_load(&img, &limits(), 3, 0x7fff_ffff_e000).unwrap();
    assert_eq!(plan.delta, 0x3000);
    assert_eq!(plan.entry, 0x401000 + 0x3000);
    assert_eq!(plan.segments[0].vaddr, 0x4000);
    assert_eq!(plan.segments[0].access, PageAccess::ReadWrite);
    assert_eq!(plan.stack_top, 0x7fff_ffff_e000);
}

#[test]
fn elf_refusals() {
    assert_eq!(plan_elf_load(&[0u8; 10], &limits(), 0, 0).unwrap_err(), ElfError::TooSmall);
    let mut bad = image(2, 5, 0x400000, 160, 0x2000);
    bad[1] = b'X';
    assert_eq!(parse_header(&bad).unwrap_err(), ElfError::BadMagic);
    let mut wrong_machine = image(2, 5, 0x400000, 160, 0x2000);
    wrong_machine[18] = 3;
    assert_eq!(parse_header(&wrong_machine).unwrap_err(), ElfError::NotX86_64);
    let empty_pie = image(3, 5, 0x1000, 100, 0);
    assert_eq!(plan_elf_load(&empty_pie, &limits(), 0, 0).unwrap_err(), ElfError::NoLoadableSegments);
    let too_long = image(2, 5, 0x400000, 4096, 0x2000);
    assert_eq!(plan_elf_load(&too_long, &limits(), 0, 0).unwrap_err(), ElfError::SegmentOutOfBounds);
    let kernel_half = image(2, 5, 0x8000_0000_0000, 16, 16);
    assert_eq!(plan_elf_load(&kernel_half, &limits(), 0, 0).unwrap_err(), ElfError::SegmentOutsideUser);
    assert_eq!(ElfError::NotX86_64.message(), "Not x86_64");
    assert_eq!(ElfError::HeadersOutOfBounds.message(), "Program headers out of bounds");
}

#[test]
fn elf_write_xor_execute() {
    assert_eq!(segment_access(7), PageAccess::ReadWrite);
    assert_eq!(segment_access(5), PageAccess::ReadExec);
    assert_eq!(segment_access(1), PageAccess::ReadExec);
    assert_eq!(segment_access(4), PageAccess::ReadOnly);
    assert_eq!(segment_access(0), PageAccess::NoAccess);
}

#[test]
fn elf_randomize_addr() {
    assert_eq!(randomize_addr(0, 0x1000, 5, 4, 0x10_0000), 0x5000);
    assert_eq!(randomize_addr(0, 0x1000, 0x15, 4, 0x10_0000), 0x5000);
    assert_eq!(randomize_addr(0x2000, 0x1000, 5, 4, 0x3000), 0x2000);
}

#[test]
fn crc32_check_value() {
    assert_eq!(crc32(b"123456789"), 0xCBF4_3926);
    assert_eq!(crc32(b""), 0);
}

fn gpt_header() -> Vec<u8> {
    let mut h = vec![0u8; 512];
    h[0..8].copy_from_slice(b"EFI PART");
    put64(&mut h, 72, 2);
    put32(&mut h, 80, 128);
    put32(&mut h, 84, 128);
    h
}

#[test]
fn gpt_table_location() {
    let t = table_info(&gpt_header()).unwrap();
    assert_eq!((t.entry_lba, t.num_entries, t.entry_size), (2, 128, 128));
    assert!(table_info(&vec![0u8; 512]).is_none());
    assert_eq!(table_sectors(128, 128), (4, 32));
}

#[test]
fn gpt_free_slot_and_entry() {
    let mut sector = vec![0u8; 512];
    assert_eq!(free_slot(&sector, 128), Some(0));
    sector[3] = 1;
    sector[128 + 15] = 9;
    assert_eq!(free_slot(&sector, 128), Some(256));
    let full = vec![1u8; 512];
    assert_eq!(free_slot(&full, 128), None);

    let e = partition_entry(2048, 4095, 3, "ab");
    assert_eq!(e.len(), 128);
    assert_eq!(&e[0..4], &[0xA2, 0xA0, 0xD0, 0xEB]);
    assert_eq!(&e[16..24], &2048u64.to_le_bytes());
    assert_eq!(&e[24..32], &[3, 0, 0, 0, 0, 0, 0, 0]);
    assert_eq!(&e[32..40], &2048u64.to_le_bytes());
    assert_eq!(&e[40..48], &4095u64.to_le_bytes());
    assert_eq!(&e[56..60], &[b'a', 0, b'b', 0]);
    assert!(e[60..128].iter().all(|b| *b == 0));

    let placed = place_partition_entry(&sector, 256, 2048, 4095, 3, "ab");
    assert_eq!(&placed[256..384], &e[..]);
    assert_eq!(&placed[0..256], &sector[0..256]);
}

#[test]
fn gpt_header_crcs() {
    let h = gpt_header();
    let entries = vec![7u8; 1024];
    let out = refresh_header(&h, &entries);
    assert_eq!(u32::from_le_bytes(out[88..92].try_into().unwrap()), crc32(&entries));
    let mut zeroed = out[..92].to_vec();
    zeroed[16..20].copy_from_slice(&[0, 0, 0, 0]);
    assert_eq!(u32::from_le_bytes(out[16..20].try_into().unwrap()), crc32(&zeroed));
    assert_eq!(&out[92..], &h[92..]);
}
