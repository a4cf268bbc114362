//! Adding a partition to a GPT disk: where its entry array is, which slot of a sector
//! is free, the 128 bytes of the new entry, and the header's refreshed CRCs.
//!
//! Reading and writing the sectors is the caller's; each step here takes the bytes
//! that were read and returns the bytes to write.
use vstd::prelude::*;
use crate::block::BlockDevice;
use crate::bytes::{get_le32, get_le64, le32, le64, set_le32, with_le32};
use crate::mesa_fs::{copy_bytes, read_sector};
use crate::nvram::{str_to_utf16, utf16_of};
use crate::usb::{crc32, spec_crc32};

verus! {

/// Where the partition entries are, as the GPT header gives it.
#[derive(Debug, Clone, Copy, PartialEq, Eq, Structural)]
pub struct GptTableInfo {
    pub entry_lba: u64,
    pub num_entries: u32,
    pub entry_size: u32,
}

/// The header starts with the signature "EFI PART".
pub open spec fn has_gpt_signature(h: Seq<u8>) -> bool {
    h.len() >= 8 && h[0] == 0x45 && h[1] == 0x46 && h[2] == 0x49 && h[3] == 0x20
        && h[4] == 0x50 && h[5] == 0x41 && h[6] == 0x52 && h[7] == 0x54
}

/// Reads the entry array's location from a GPT header sector; none without the signature.
pub fn table_info(header: &[u8]) -> (res: Option<GptTableInfo>)
    requires
        header@.len() >= 92,
    ensures
        match res {
            Some(t) => has_gpt_signature(header@)
                && t.entry_lba as nat == le64(header@, 72)
                && t.num_entries as nat == le32(header@, 80)
                && t.entry_size as nat == le32(header@, 84),
            None => !has_gpt_signature(header@),
        },
{
    if !(header[0] == 0x45 && header[1] == 0x46 && header[2] == 0x49 && header[3] == 0x20
        && header[4] == 0x50 && header[5] == 0x41 && header[6] == 0x52 && header[7] == 0x54) {
        return None;
    }
    Some(GptTableInfo {
        entry_lba: get_le64(header, 72),
        num_entries: get_le32(header, 80),
        entry_size: get_le32(header, 84),
    })
}

/// Entries per 512-byte sector and the number of sectors the array spans.
pub open spec fn spec_table_sectors(num_entries: u32, entry_size: u32) -> (nat, nat) {
    let eps = 512nat / (entry_size as nat);
    (eps, ((num_entries + eps - 1) / (eps as int)) as nat)
}

pub fn table_sectors(num_entries: u32, entry_size: u32) -> (res: (usize, u64))
    requires
        1 <= entry_size <= 512,
    ensures
        res.0 as nat == spec_table_sectors(num_entries, entry_size).0,
        res.1 as nat == spec_table_sectors(num_entries, entry_size).1,
        res.0 >= 1,
{
    let eps = 512usize / entry_size as usize;
    assert(eps >= 1) by (nonlinear_arith)
        requires
            eps == 512int / (entry_size as int),
            1 <= entry_size <= 512,
    ;
    let n = (num_entries as u64 + eps as u64 - 1) / eps as u64;
    assert(n <= num_entries as u64 + 512) by (nonlinear_arith)
        requires
            n == (num_entries as int + eps as int - 1) / (eps as int),
            1 <= eps <= 512,
    ;
    (eps, n)
}

/// The 16 bytes at `off` are all zero: an unused partition entry.
pub open spec fn slot_free(d: Seq<u8>, off: int) -> bool {
    forall|j: int| 0 <= j < 16 ==> #[trigger] d[off + j] == 0
}

/// The entry slots of a sector that can hold a type GUID: the first `k` of the
/// sector's `eps` slots that end within its 512 bytes.
pub open spec fn slot_usable(es: nat, k: int) -> bool {
    k * es + 16 <= 512
}

/// The offset of the first free entry in a 512-byte sector of the entry array.
pub fn free_slot(sector: &[u8], entry_size: u32) -> (res: Option<usize>)
    requires
        sector@.len() >= 512,
        1 <= entry_size <= 512,
    ensures
        match res {
            Some(off) => exists|k: int| #![trigger slot_usable(entry_size as nat, k)]
                0 <= k < 512int / (entry_size as int) && off == k * entry_size
                && slot_usable(entry_size as nat, k) && slot_free(sector@, off as int)
                && forall|k2: int| 0 <= k2 < k ==> !slot_free(sector@, #[trigger] (k2 * entry_size)),
            None => forall|k: int| 0 <= k < 512int / (entry_size as int) && slot_usable(entry_size as nat, k)
                ==> !slot_free(sector@, #[trigger] (k * entry_size)),
        },
{
    let eps = 512usize / entry_size as usize;
    let es = entry_size as usize;
    let mut ei: usize = 0;
    while ei < eps
        invariant
            eps == 512int / (entry_size as int),
            es == entry_size,
            1 <= entry_size <= 512,
            sector@.len() >= 512,
            ei <= eps,
            forall|k2: int| 0 <= k2 < ei ==> !slot_free(sector@, #[trigger] (k2 * entry_size)),
        decreases eps - ei,
    {
        assert(ei * es <= 512) by (nonlinear_arith)
            requires
                ei < eps,
                eps == 512int / (es as int),
                1 <= es,
        ;
        let off = ei * es;
        if off + 16 > 512 {
            assert forall|k: int| ei <= k < eps && slot_usable(entry_size as nat, k) implies false by {
                assert(k * es >= ei * es) by (nonlinear_arith)
                    requires
                        k >= ei,
                        es >= 0,
                ;
            }
            return None;
        }
        let mut j: usize = 0;
        let mut free = true;
        while j < 16
            invariant
                off + 16 <= 512,
                sector@.len() >= 512,
                j <= 16,
                free == forall|t: int| 0 <= t < j ==> #[trigger] sector@[off + t] == 0,
            decreases 16 - j,
        {
            if sector[off + j] != 0 {
                free = false;
            }
            j = j + 1;
        }
        if free {
            assert(slot_usable(entry_size as nat, ei as int));
            return Some(off);
        }
        ei = ei + 1;
    }
    None
}

/// The Basic Data partition type GUID, in on-disk byte order.
pub open spec fn basic_data_guid() -> Seq<u8> {
    seq![0xA2u8, 0xA0, 0xD0, 0xEB, 0xE5, 0xB9, 0x33, 0x44, 0x87, 0xC0, 0x68, 0xB6, 0xB7, 0x26, 0x99, 0xC7]
}

/// The eight little-endian bytes of `x`.
pub open spec fn le_bytes64(x: u64) -> Seq<u8> {
    seq![
        (x % 256) as u8,
        (x / 0x100 % 256) as u8,
        (x / 0x1_0000 % 256) as u8,
        (x / 0x100_0000 % 256) as u8,
        (x / 0x1_0000_0000 % 256) as u8,
        (x / 0x100_0000_0000 % 256) as u8,
        (x / 0x1_0000_0000_0000 % 256) as u8,
        (x / 0x100_0000_0000_0000 % 256) as u8,
    ]
}

/// The partition name field: the first 36 UTF-16 units of the name, little-endian,
/// zero-padded to 72 bytes.
pub open spec fn name_bytes(name: Seq<u16>) -> Seq<u8> {
    Seq::new(72, |i: int| {
        let k = i / 2;
        if k < name.len() {
            if i % 2 == 0 { (name[k] % 256) as u8 } else { (name[k] / 256) as u8 }
        } else {
            0u8
        }
    })
}

/// A new partition entry: Basic Data type, a unique GUID made of the start LBA and
/// the device's slot, the first and last LBA, no attributes, and the name.
pub open spec fn entry_image(start: u64, end: u64, slot_id: u8, name: Seq<u16>) -> Seq<u8> {
    basic_data_guid() + le_bytes64(start) + seq![slot_id, 0u8, 0u8, 0u8, 0u8, 0u8, 0u8, 0u8]
        + le_bytes64(start) + le_bytes64(end) + Seq::new(8, |i: int| 0u8) + name_bytes(name)
}

fn push_le64(v: &mut Vec<u8>, x: u64)
    ensures
        final(v)@ == old(v)@ + le_bytes64(x),
{
    v.push((x % 256) as u8);
    v.push((x / 0x100 % 256) as u8);
    v.push((x / 0x1_0000 % 256) as u8);
    v.push((x / 0x100_0000 % 256) as u8);
    v.push((x / 0x1_0000_0000 % 256) as u8);
    v.push((x / 0x100_0000_0000 % 256) as u8);
    v.push((x / 0x1_0000_0000_0000 % 256) as u8);
    v.push((x / 0x100_0000_0000_0000 % 256) as u8);
    assert(final(v)@ =~= old(v)@ + le_bytes64(x));
}

/// The bytes of a new partition entry named `name`.
pub fn partition_entry(start: u64, end: u64, slot_id: u8, name: &str) -> (res: Vec<u8>)
    ensures
        res@ == entry_image(start, end, slot_id, utf16_of(name@)),
        res@.len() == 128,
{
    let mut units = str_to_utf16(name);
    let _ = units.pop();
    assert(units@ =~= utf16_of(name@));
    let mut v: Vec<u8> = Vec::new();
    let guid: [u8; 16] = [0xA2, 0xA0, 0xD0, 0xEB, 0xE5, 0xB9, 0x33, 0x44, 0x87, 0xC0, 0x68, 0xB6, 0xB7, 0x26, 0x99, 0xC7];
    let mut g: usize = 0;
    while g < 16
        invariant
            g <= 16,
            guid@ == basic_data_guid(),
            v@ == basic_data_guid().subrange(0, g as int),
        decreases 16 - g,
    {
        v.push(guid[g]);
        g = g + 1;
        assert(v@ =~= basic_data_guid().subrange(0, g as int));
    }
    let ghost v0 = v@;
    push_le64(&mut v, start);
    v.push(slot_id);
    let mut z: usize = 0;
    while z < 7
        invariant
            z <= 7,
            v@ == v0 + le_bytes64(start) + seq![slot_id] + Seq::new(z as nat, |i: int| 0u8),
        decreases 7 - z,
    {
        v.push(0);
        z = z + 1;
        assert(v@ =~= v0 + le_bytes64(start) + seq![slot_id] + Seq::new(z as nat, |i: int| 0u8));
    }
    let ghost v1 = v@;
    push_le64(&mut v, start);
    push_le64(&mut v, end);
    let ghost v2 = v@;
    let mut a: usize = 0;
    while a < 8
        invariant
            a <= 8,
            v@ == v2 + Seq::new(a as nat, |i: int| 0u8),
        decreases 8 - a,
    {
        v.push(0);
        a = a + 1;
        assert(v@ =~= v2 + Seq::new(a as nat, |i: int| 0u8));
    }
    let ghost v3 = v@;
    let mut i: usize = 0;
    while i < 72
        invariant
            i <= 72,
            units@ == utf16_of(name@),
            v@ == v3 + name_bytes(units@).subrange(0, i as int),
        decreases 72 - i,
    {
        let k = i / 2;
        let b: u8 = if k < units.len() {
            if i % 2 == 0 { (units[k] % 256) as u8 } else { (units[k] / 256) as u8 }
        } else {
            0
        };
        v.push(b);
        i = i + 1;
        assert(v@ =~= v3 + name_bytes(units@).subrange(0, i as int));
    }
    assert(seq![slot_id] + Seq::new(7, |i: int| 0u8) =~= seq![slot_id, 0u8, 0u8, 0u8, 0u8, 0u8, 0u8, 0u8]);
    assert(name_bytes(units@).subrange(0, 72) =~= name_bytes(units@));
    assert(v@ =~= entry_image(start, end, slot_id, units@));
    v
}

/// A sector with the 128 bytes at `off` replaced by `entry`.
pub open spec fn with_entry_at(sector: Seq<u8>, off: int, entry: Seq<u8>) -> Seq<u8> {
    sector.subrange(0, off) + entry + sector.subrange(off + 128, sector.len() as int)
}

/// Writes a new partition entry into the entry-array sector at byte `off`.
pub fn place_partition_entry(sector: &[u8], off: usize, start: u64, end: u64, slot_id: u8, name: &str) -> (res: Vec<u8>)
    requires
        off + 128 <= sector@.len(),
    ensures
        res@ == with_entry_at(sector@, off as int, entry_image(start, end, slot_id, utf16_of(name@))),
        res@.len() == sector@.len(),
{
    let entry = partition_entry(start, end, slot_id, name);
    let n = sector.len();
    let mut out = copy_bytes(sector);
    let mut i: usize = 0;
    while i < 128
        invariant
            n == sector@.len(),
            off + 128 <= sector@.len(),
            entry@.len() == 128,
            i <= 128,
            out@.len() == sector@.len(),
            forall|t: int| 0 <= t < off ==> #[trigger] out@[t] == sector@[t],
            forall|t: int| off + 128 <= t < sector@.len() ==> #[trigger] out@[t] == sector@[t],
            forall|t: int| 0 <= t < i ==> #[trigger] out@[off + t] == entry@[t],
            forall|t: int| i <= t < 128 ==> #[trigger] out@[off + t] == sector@[off + t],
        decreases 128 - i,
    {
        out.set(off + i, entry[i]);
        i = i + 1;
    }
    let ghost w = with_entry_at(sector@, off as int, entry@);
    assert forall|t: int| 0 <= t < sector@.len() implies #[trigger] out@[t] == w[t] by {
        if t < off {
        } else if t < off + 128 {
            assert(out@[off + (t - off)] == entry@[t - off]);
        } else {
        }
    }
    assert(out@ =~= w);
    out
}

/// The header with the entry array's CRC (bytes 88..92) set to `entries_crc` and the
/// header's own CRC (bytes 16..20) recomputed over its first 92 bytes.
pub open spec fn refreshed_header(h: Seq<u8>, entries_crc: u32) -> Seq<u8> {
    let h1 = with_le32(with_le32(h, 88, entries_crc), 16, 0);
    with_le32(h1, 16, spec_crc32(h1.subrange(0, 92)))
}

/// The header to write back after the entry array changed to `entries`.
pub fn refresh_header(header: &[u8], entries: &[u8]) -> (res: Vec<u8>)
    requires
        header@.len() >= 92,
    ensures
        res@ == refreshed_header(header@, spec_crc32(entries@)),
{
    let entries_crc = crc32(entries);
    let mut h = copy_bytes(header);
    set_le32(&mut h, 88, entries_crc);
    set_le32(&mut h, 16, 0);
    let ghost h1 = h@;
    let crc = crc32(slice_prefix(&h, 92));
    set_le32(&mut h, 16, crc);
    h
}

fn slice_prefix(v: &Vec<u8>, n: usize) -> (res: &[u8])
    requires
        n <= v@.len(),
    ensures
        res@ == v@.subrange(0, n as int),
{
    vstd::slice::slice_subrange(v.as_slice(), 0, n)
}

/// `off` is the first free slot of the entry-array sector `s`, as `free_slot` finds it.
pub open spec fn first_free_slot(s: Seq<u8>, entry_size: u32, off: int) -> bool {
    exists|k: int| #![trigger slot_usable(entry_size as nat, k)]
        0 <= k < 512int / (entry_size as int) && off == k * entry_size
        && slot_usable(entry_size as nat, k) && slot_free(s, off)
        && forall|k2: int| 0 <= k2 < k ==> !slot_free(s, #[trigger] (k2 * entry_size))
}

/// Looks through the first `sectors` sectors of the entry array for a free slot,
/// skipping sectors that cannot be read: the sector's address, the slot's offset and the
/// sector's bytes.
pub fn find_free_entry<D: BlockDevice>(dev: &D, entry_lba: u64, entry_size: u32, sectors: u64) -> (res: Option<(u64, usize, Vec<u8>)>)
    requires
        1 <= entry_size <= 512,
        entry_lba + sectors <= u64::MAX,
    ensures
        res matches Some((lba, off, s)) ==> entry_lba <= lba < entry_lba + sectors && s@ == dev.sector(lba as int)
            && s@.len() == 512 && first_free_slot(s@, entry_size, off as int),
        res matches Some((lba, off, s)) ==> forall|l: int| entry_lba <= l < lba && #[trigger] dev.readable(l)
            ==> no_free_slot(dev.sector(l), entry_size),
        res is None ==> forall|l: int| entry_lba <= l < entry_lba + sectors && #[trigger] dev.readable(l)
            ==> no_free_slot(dev.sector(l), entry_size),
{
    let mut sec: u64 = 0;
    while sec < sectors
        invariant
            1 <= entry_size <= 512,
            entry_lba + sectors <= u64::MAX,
            sec <= sectors,
            forall|l: int| entry_lba <= l < entry_lba + sec && #[trigger] dev.readable(l) ==> no_free_slot(dev.sector(l), entry_size),
        decreases sectors - sec,
    {
        match read_sector(dev, entry_lba + sec) {
            Some(buf) => {
                match free_slot(buf.as_slice(), entry_size) {
                    Some(off) => {
                        return Some((entry_lba + sec, off, buf));
                    },
                    None => {},
                }
            },
            None => {},
        }
        sec = sec + 1;
    }
    None
}

/// No slot of the entry-array sector `s` that can hold a type GUID is free.
pub open spec fn no_free_slot(s: Seq<u8>, entry_size: u32) -> bool {
    forall|k: int| 0 <= k < 512int / (entry_size as int) && slot_usable(entry_size as nat, k)
        ==> !slot_free(s, #[trigger] (k * entry_size))
}

/// The bytes of the sectors at `lba + secs[0]`, `lba + secs[1]`, ..., one after the other.
pub open spec fn sectors_joined<D: BlockDevice>(dev: D, lba: int, secs: Seq<int>) -> Seq<u8>
    decreases secs.len(),
{
    if secs.len() == 0 {
        Seq::empty()
    } else {
        sectors_joined(dev, lba, secs.drop_last()) + dev.sector(lba + secs.last())
    }
}

/// The entry array as far as it can be read: the first `sectors` sectors from
/// `entry_lba` joined in order, leaving out those that cannot be read.
pub fn read_entry_array<D: BlockDevice>(dev: &D, entry_lba: u64, sectors: u64) -> (res: Vec<u8>)
    requires
        entry_lba + sectors <= u64::MAX,
    ensures
        exists|secs: Seq<int>| #![trigger sectors_joined(*dev, entry_lba as int, secs)]
            (forall|a: int, b: int| 0 <= a < b < secs.len() ==> secs[a] < secs[b])
            && (forall|a: int| 0 <= a < secs.len() ==> 0 <= #[trigger] secs[a] < sectors)
            && res@ == sectors_joined(*dev, entry_lba as int, secs),
        (forall|k: int| 0 <= k < sectors ==> #[trigger] dev.readable(entry_lba + k))
            ==> res@ == sectors_joined(*dev, entry_lba as int, Seq::new(sectors as nat, |i: int| i)),
{
    let mut all: Vec<u8> = Vec::new();
    let ghost mut secs: Seq<int> = Seq::empty();
    let mut sec: u64 = 0;
    while sec < sectors
        invariant
            entry_lba + sectors <= u64::MAX,
            sec <= sectors,
            forall|a: int, b: int| 0 <= a < b < secs.len() ==> secs[a] < secs[b],
            forall|a: int| 0 <= a < secs.len() ==> 0 <= #[trigger] secs[a] < sec,
            all@ == sectors_joined(*dev, entry_lba as int, secs),
            (forall|k: int| 0 <= k < sectors ==> #[trigger] dev.readable(entry_lba + k)) ==> secs =~= Seq::new(sec as nat, |i: int| i),
        decreases sectors - sec,
    {
        match read_sector(dev, entry_lba + sec) {
            Some(buf) => {
                let ghost before = all@;
                let mut k: usize = 0;
                while k < buf.len()
                    invariant
                        k <= buf@.len(),
                        all@ == before + buf@.subrange(0, k as int),
                    decreases buf@.len() - k,
                {
                    all.push(buf[k]);
                    k = k + 1;
                    assert(all@ =~= before + buf@.subrange(0, k as int));
                }
                proof {
                    let old_secs = secs;
                    secs = secs.push(sec as int);
                    assert(secs.drop_last() =~= old_secs);
                    assert(buf@.subrange(0, buf@.len() as int) =~= buf@);
                }
            },
            None => {
                proof {
                    if forall|k: int| 0 <= k < sectors ==> #[trigger] dev.readable(entry_lba + k) {
                        assert(dev.readable(entry_lba + sec));
                    }
                }
            },
        }
        sec = sec + 1;
    }
    all
}


/// The GPT at sector 1 of `dev` can take a new entry as `add_gpt_partition_entry` writes
/// it: where the header has the signature, its entry size is between 1 and 512 bytes, the
/// entry array's sectors have 64-bit addresses, and the first free slot of each of its
/// sectors leaves room for the 128 bytes of an entry.
pub open spec fn entry_addable<D: BlockDevice>(dev: D) -> bool {
    let h = dev.sector(1);
    let es = le32(h, 84);
    let lba = le64(h, 72);
    has_gpt_signature(h) ==> {
        &&& 1 <= es <= 512
        &&& lba + spec_table_sectors(le32(h, 80) as u32, es as u32).1 <= u64::MAX
        &&& forall|sec: int, off: int| 0 <= sec < spec_table_sectors(le32(h, 80) as u32, es as u32).1
            && #[trigger] first_free_slot(dev.sector(lba + sec), es as u32, off) ==> off + 128 <= 512
    }
}

/// The bytes of the sectors at `lba + secs[..]` once sector `changed` holds `bytes`.
pub open spec fn sectors_joined_after<D: BlockDevice>(dev: D, changed: int, bytes: Seq<u8>, lba: int, secs: Seq<int>) -> Seq<u8>
    decreases secs.len(),
{
    if secs.len() == 0 {
        Seq::empty()
    } else {
        sectors_joined_after(dev, changed, bytes, lba, secs.drop_last())
            + if lba + secs.last() == changed { bytes } else { dev.sector(lba + secs.last()) }
    }
}

proof fn lemma_joined_after<D: BlockDevice>(mid: D, dev: D, changed: int, bytes: Seq<u8>, lba: int, secs: Seq<int>)
    requires
        forall|l: int| #[trigger] mid.sector(l) == if l == changed { bytes } else { dev.sector(l) },
    ensures
        sectors_joined(mid, lba, secs) == sectors_joined_after(dev, changed, bytes, lba, secs),
    decreases secs.len(),
{
    if secs.len() > 0 {
        lemma_joined_after(mid, dev, changed, bytes, lba, secs.drop_last());
        assert(mid.sector(lba + secs.last()) == if lba + secs.last() == changed { bytes } else { dev.sector(lba + secs.last()) });
    }
}

/// What a successful `add_gpt_partition_entry` leaves on `after`: the entry sector at
/// `lba` has the new entry at `off`, its first free slot; the header at sector 1 is
/// refreshed over the entry array as read back (the sectors `secs` of it); nothing else
/// changed.
pub open spec fn entry_added<D: BlockDevice>(before: D, after: D, lba: int, off: int, secs: Seq<int>, start: u64, end: u64,
    slot_id: u8, name: Seq<char>) -> bool {
    let h = before.sector(1);
    let es = le32(h, 84);
    let entry_lba = le64(h, 72);
    let nsec = spec_table_sectors(le32(h, 80) as u32, es as u32).1;
    let placed = with_entry_at(before.sector(lba), off, entry_image(start, end, slot_id, utf16_of(name)));
    &&& entry_lba <= lba < entry_lba + nsec
    &&& first_free_slot(before.sector(lba), es as u32, off)
    &&& (forall|a: int, b: int| 0 <= a < b < secs.len() ==> secs[a] < secs[b])
    &&& (forall|a: int| 0 <= a < secs.len() ==> 0 <= #[trigger] secs[a] < nsec)
    &&& forall|l: int| #[trigger] after.sector(l) == if l == 1 {
            refreshed_header(h, spec_crc32(sectors_joined_after(before, lba, placed, entry_lba as int, secs)))
        } else if l == lba {
            placed
        } else {
            before.sector(l)
        }
}

/// Adds a Basic Data partition named `name` over `start..=end` in the first free slot of
/// the GPT's entry array (its first sector with one, among those that can be read), and
/// writes back the header with both CRCs refreshed. `false` when there is no GPT header,
/// no free slot, or a read or write fails.
pub fn add_gpt_partition_entry<D: BlockDevice>(dev: &mut D, slot_id: u8, start: u64, end: u64, name: &str) -> (res: bool)
    requires
        entry_addable(*old(dev)),
    ensures
        !has_gpt_signature(old(dev).sector(1)) ==> !res && *final(dev) == *old(dev),
        res ==> has_gpt_signature(old(dev).sector(1)) && exists|lba: int, off: int, secs: Seq<int>|
            #[trigger] entry_added(*old(dev), *final(dev), lba, off, secs, start, end, slot_id, name@),
{
    let header = match read_sector(dev, 1) {
        Some(h) => h,
        None => return false,
    };
    let info = match table_info(header.as_slice()) {
        Some(t) => t,
        None => return false,
    };
    let ghost d0 = *dev;
    let (_, sectors) = table_sectors(info.num_entries, info.entry_size);
    let (lba, off, sector) = match find_free_entry(dev, info.entry_lba, info.entry_size, sectors) {
        Some(t) => t,
        None => return false,
    };
    proof {
        let h = d0.sector(1);
        assert(first_free_slot(d0.sector(info.entry_lba + (lba - info.entry_lba)), le32(h, 84) as u32, off as int));
    }
    let updated = place_partition_entry(sector.as_slice(), off, start, end, slot_id, name);
    if dev.write(lba, 1, updated.as_slice()).is_err() {
        return false;
    }
    let ghost d1 = *dev;
    proof {
        assert(updated@.subrange(0, 512) =~= updated@);
        assert forall|l: int| #[trigger] d1.sector(l) == if l == lba { updated@ } else { d0.sector(l) } by {
            assert(d1.sector(l) == if lba <= l < lba + 1 { updated@.subrange((l - lba) * 512, (l - lba) * 512 + 512) } else { d0.sector(l) });
        }
    }
    let all = read_entry_array(dev, info.entry_lba, sectors);
    let ghost secs = choose|secs: Seq<int>| #![trigger sectors_joined(d1, info.entry_lba as int, secs)]
        (forall|a: int, b: int| 0 <= a < b < secs.len() ==> secs[a] < secs[b])
        && (forall|a: int| 0 <= a < secs.len() ==> 0 <= #[trigger] secs[a] < sectors)
        && all@ == sectors_joined(d1, info.entry_lba as int, secs);
    proof {
        lemma_joined_after(d1, d0, lba as int, updated@, info.entry_lba as int, secs);
    }
    let new_header = refresh_header(header.as_slice(), all.as_slice());
    assert(new_header@.len() == 512);
    if dev.write(1, 1, new_header.as_slice()).is_err() {
        return false;
    }
    proof {
        assert(new_header@.subrange(0, 512) =~= new_header@);
        assert forall|l: int| #[trigger] dev.sector(l) == (if l == 1 { new_header@ } else if l == lba { updated@ } else { d0.sector(l) }) by {
            assert(dev.sector(l) == if 1 <= l < 2 { new_header@.subrange((l - 1) * 512, (l - 1) * 512 + 512) } else { d1.sector(l) });
        }
        assert(entry_added(d0, *dev, lba as int, off as int, secs, start, end, slot_id, name@));
    }
    true
}

} // verus!
