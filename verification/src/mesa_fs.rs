//! MesaFS: a flat file system inside a GPT partition. The partition's first sector holds
//! the header, the second the table of entries (eleven packed 45-byte records), and the
//! sectors after them the files' data.
use vstd::prelude::*;
use crate::block::{BlockDevice, SECTOR_SIZE};
use crate::bytes::{get_le32, get_le64, le32, le64, set_le32, set_le64, with_le32, with_le64};
use crate::text::{chars_of, decode_utf8, str_eq, string_of};
use vstd::string::StringSliceAdditionalSpecFns;

verus! {

/// The version written in new headers.
pub const MESA_FS_VERSION: u32 = 1;
/// Size of one packed entry of the table.
pub const ENTRY_SIZE: usize = 45;
/// Entries held by the table's sector.
pub const ENTRIES_PER_SECTOR: usize = 11;
/// The most files the format was meant to hold.
pub const MAX_FILES: usize = 128;
/// Entry kinds (the last byte of an entry).
pub const ENTRY_UNUSED: u8 = 0;
pub const ENTRY_FILE: u8 = 1;
pub const ENTRY_DIR: u8 = 2;

/// The header in the partition's first sector.
pub struct MesaFsHeader {
    pub magic: [u8; 8],
    pub version: u32,
    pub total_sectors: u64,
    pub file_count: u32,
    pub reserved: [u8; 488],
}

/// One entry of the table.
pub struct MesaFsFileEntry {
    pub name: [u8; 32],
    pub start_lba_offset: u32,
    pub sector_count: u32,
    pub size_bytes: u32,
    pub is_used: u8,
}

/// Where the mounted file system lies.
#[derive(Debug, Clone, Copy, PartialEq, Eq, Structural)]
pub struct MesaFsState {
    pub initialized: bool,
    pub free_start_lba: u64,
    pub free_sectors: u64,
}

impl MesaFsState {
    /// Nothing mounted.
    pub fn empty() -> (res: Self)
        ensures
            !res.initialized && res.free_start_lba == 0 && res.free_sectors == 0,
    {
        MesaFsState { initialized: false, free_start_lba: 0, free_sectors: 0 }
    }

    /// The partition's sectors can be addressed from its start without overflow.
    pub open spec fn wf(&self) -> bool {
        self.free_start_lba + 0x1_0000_0000 <= u64::MAX
    }
}

pub fn mesa_fs_is_initialized(state: &MesaFsState) -> (res: bool)
    ensures
        res == state.initialized,
{
    state.initialized
}

/// The magic bytes `MESA_FS1` at the start of a header.
pub open spec fn has_magic(s: Seq<u8>) -> bool {
    s.len() >= 8 && s[0] == 0x4d && s[1] == 0x45 && s[2] == 0x53 && s[3] == 0x41 && s[4] == 0x5f && s[5] == 0x46
        && s[6] == 0x53 && s[7] == 0x31
}

pub fn check_magic(s: &[u8]) -> (res: bool)
    ensures
        res == has_magic(s@),
{
    s.len() >= 8 && s[0] == 0x4d && s[1] == 0x45 && s[2] == 0x53 && s[3] == 0x41 && s[4] == 0x5f && s[5] == 0x46
        && s[6] == 0x53 && s[7] == 0x31
}

// ---------------------------------------------------------------------------
// The table of entries.

/// The kind byte of entry `i`.
pub open spec fn entry_kind(t: Seq<u8>, i: int) -> u8 {
    t[i * 45 + 44]
}

/// The position of the first zero byte of `s` from `k` on, or its length.
pub open spec fn zero_pos(s: Seq<u8>, k: nat) -> nat
    decreases s.len() - k,
{
    if k >= s.len() {
        s.len()
    } else if s[k as int] == 0 {
        k
    } else {
        zero_pos(s, k + 1)
    }
}

/// The bytes of entry `i`'s name: its 32-byte field up to the first zero byte.
pub open spec fn raw_name(t: Seq<u8>, i: int) -> Seq<u8> {
    let f = t.subrange(i * 45, i * 45 + 32);
    f.subrange(0, zero_pos(f, 0) as int)
}

/// Entry `i`'s name as text, `?` when its bytes are not UTF-8.
pub open spec fn entry_name(t: Seq<u8>, i: int) -> Seq<char> {
    if vstd::utf8::valid_utf8(raw_name(t, i)) { vstd::utf8::decode_utf8(raw_name(t, i)) } else { "?"@ }
}

/// Entry `i`'s first sector, relative to the partition's start.
pub open spec fn entry_start(t: Seq<u8>, i: int) -> nat {
    le32(t, i * 45 + 32)
}

/// Entry `i`'s length in sectors.
pub open spec fn entry_sectors(t: Seq<u8>, i: int) -> nat {
    le32(t, i * 45 + 36)
}

/// Entry `i`'s length in bytes.
pub open spec fn entry_bytes(t: Seq<u8>, i: int) -> nat {
    le32(t, i * 45 + 40)
}

proof fn lemma_zero_pos(s: Seq<u8>, k: nat)
    requires
        k <= s.len(),
    ensures
        k <= zero_pos(s, k) <= s.len(),
        forall|j: int| k <= j < zero_pos(s, k) ==> s[j] != 0,
        zero_pos(s, k) < s.len() ==> s[zero_pos(s, k) as int] == 0,
    decreases s.len() - k,
{
    if k < s.len() && s[k as int] != 0 {
        lemma_zero_pos(s, k + 1);
    }
}

/// Entry `i`'s name, read from the table.
pub fn entry_name_of(t: &[u8], i: usize) -> (res: String)
    requires
        t@.len() == SECTOR_SIZE,
        i < ENTRIES_PER_SECTOR,
    ensures
        res@ == entry_name(t@, i as int),
{
    let off = i * ENTRY_SIZE;
    let ghost f = t@.subrange(off as int, off + 32);
    proof { lemma_zero_pos(f, 0); }
    let mut bytes: Vec<u8> = Vec::new();
    let mut k: usize = 0;
    while k < 32 && t[off + k] != 0
        invariant
            t@.len() == SECTOR_SIZE,
            off + 32 <= SECTOR_SIZE,
            f == t@.subrange(off as int, off + 32),
            k <= zero_pos(f, 0),
            zero_pos(f, 0) <= 32,
            forall|j: int| 0 <= j < zero_pos(f, 0) ==> f[j] != 0,
            zero_pos(f, 0) < 32 ==> f[zero_pos(f, 0) as int] == 0,
            bytes@ == f.subrange(0, k as int),
        decreases 32 - k,
    {
        bytes.push(t[off + k]);
        k = k + 1;
        assert(bytes@ =~= f.subrange(0, k as int));
    }
    if k < 32 {
        assert(f[k as int] == t@[off + k]);
    }
    assert(k == zero_pos(f, 0));
    assert(bytes@ =~= raw_name(t@, i as int));
    match decode_utf8(bytes.as_slice()) {
        Some(s) => s,
        None => string_of("?"),
    }
}

/// The files of the table, in table order: name, size in bytes and length in sectors.
pub open spec fn file_list(t: Seq<u8>, n: nat) -> Seq<(Seq<char>, u32, u32)>
    decreases n,
{
    if n == 0 {
        Seq::empty()
    } else {
        let i = n - 1;
        let prev = file_list(t, (n - 1) as nat);
        if entry_kind(t, i) == ENTRY_FILE {
            prev.push((entry_name(t, i), entry_bytes(t, i) as u32, entry_sectors(t, i) as u32))
        } else {
            prev
        }
    }
}

/// Every entry in use, in table order: name, kind, size in bytes and length in sectors.
pub open spec fn dir_list(t: Seq<u8>, n: nat) -> Seq<(Seq<char>, u8, u32, u32)>
    decreases n,
{
    if n == 0 {
        Seq::empty()
    } else {
        let i = n - 1;
        let prev = dir_list(t, (n - 1) as nat);
        if entry_kind(t, i) != ENTRY_UNUSED {
            prev.push((entry_name(t, i), entry_kind(t, i), entry_bytes(t, i) as u32, entry_sectors(t, i) as u32))
        } else {
            prev
        }
    }
}

pub open spec fn files_view(v: Seq<(String, u32, u32)>) -> Seq<(Seq<char>, u32, u32)> {
    Seq::new(v.len(), |k: int| (v[k].0@, v[k].1, v[k].2))
}

pub open spec fn dir_view(v: Seq<(String, u8, u32, u32)>) -> Seq<(Seq<char>, u8, u32, u32)> {
    Seq::new(v.len(), |k: int| (v[k].0@, v[k].1, v[k].2, v[k].3))
}

/// The files listed in a table sector.
pub fn files_in_table(t: &[u8]) -> (res: Vec<(String, u32, u32)>)
    requires
        t@.len() == SECTOR_SIZE,
    ensures
        files_view(res@) == file_list(t@, ENTRIES_PER_SECTOR as nat),
{
    let mut files: Vec<(String, u32, u32)> = Vec::new();
    let mut i: usize = 0;
    while i < ENTRIES_PER_SECTOR
        invariant
            t@.len() == SECTOR_SIZE,
            i <= ENTRIES_PER_SECTOR,
            files_view(files@) == file_list(t@, i as nat),
        decreases ENTRIES_PER_SECTOR - i,
    {
        let off = i * ENTRY_SIZE;
        if t[off + 44] == ENTRY_FILE {
            let name = entry_name_of(t, i);
            let sectors = get_le32(t, off + 36);
            let size = get_le32(t, off + 40);
            let ghost before = files@;
            files.push((name, size, sectors));
            assert(files_view(files@) =~= files_view(before).push((entry_name(t@, i as int), size, sectors)));
        }
        i = i + 1;
    }
    files
}

/// Every entry in use in a table sector.
pub fn entries_in_table(t: &[u8]) -> (res: Vec<(String, u8, u32, u32)>)
    requires
        t@.len() == SECTOR_SIZE,
    ensures
        dir_view(res@) == dir_list(t@, ENTRIES_PER_SECTOR as nat),
{
    let mut entries: Vec<(String, u8, u32, u32)> = Vec::new();
    let mut i: usize = 0;
    while i < ENTRIES_PER_SECTOR
        invariant
            t@.len() == SECTOR_SIZE,
            i <= ENTRIES_PER_SECTOR,
            dir_view(entries@) == dir_list(t@, i as nat),
        decreases ENTRIES_PER_SECTOR - i,
    {
        let off = i * ENTRY_SIZE;
        let kind = t[off + 44];
        if kind != ENTRY_UNUSED {
            let name = entry_name_of(t, i);
            let sectors = get_le32(t, off + 36);
            let size = get_le32(t, off + 40);
            let ghost before = entries@;
            entries.push((name, kind, size, sectors));
            assert(dir_view(entries@) =~= dir_view(before).push((entry_name(t@, i as int), kind, size, sectors)));
        }
        i = i + 1;
    }
    entries
}


// ---------------------------------------------------------------------------
// Looking entries up.

/// The first entry in use from `i` on whose name is `name`.
pub open spec fn find_from(t: Seq<u8>, name: Seq<char>, i: nat) -> Option<nat>
    decreases ENTRIES_PER_SECTOR - i,
{
    if i >= ENTRIES_PER_SECTOR {
        None
    } else if entry_kind(t, i as int) != ENTRY_UNUSED && entry_name(t, i as int) == name {
        Some(i)
    } else {
        find_from(t, name, i + 1)
    }
}

/// The first entry in use named `name`.
pub fn find_entry(t: &[u8], name: &str) -> (res: Option<usize>)
    requires
        t@.len() == SECTOR_SIZE,
    ensures
        match res {
            Some(i) => find_from(t@, name@, 0) == Some(i as nat),
            None => find_from(t@, name@, 0) is None,
        },
{
    let mut i: usize = 0;
    while i < ENTRIES_PER_SECTOR
        invariant
            t@.len() == SECTOR_SIZE,
            i <= ENTRIES_PER_SECTOR,
            find_from(t@, name@, 0) == find_from(t@, name@, i as nat),
        decreases ENTRIES_PER_SECTOR - i,
    {
        if t[i * ENTRY_SIZE + 44] != ENTRY_UNUSED {
            let n = entry_name_of(t, i);
            if str_eq(n.as_str(), name) {
                return Some(i);
            }
        }
        i = i + 1;
    }
    None
}

/// Where a new entry named `name` goes: the first unused entry, unless an entry in use
/// before it already has that name, or the table is full.
#[derive(Debug, Clone, Copy, PartialEq, Eq, Structural)]
pub enum Slot {
    Free(usize),
    Taken,
    Full,
}

pub open spec fn slot_from(t: Seq<u8>, name: Seq<char>, i: nat) -> Slot
    decreases ENTRIES_PER_SECTOR - i,
{
    if i >= ENTRIES_PER_SECTOR {
        Slot::Full
    } else if entry_kind(t, i as int) != ENTRY_UNUSED {
        if entry_name(t, i as int) == name {
            Slot::Taken
        } else {
            slot_from(t, name, i + 1)
        }
    } else {
        Slot::Free(i as usize)
    }
}

proof fn lemma_slot_range(t: Seq<u8>, name: Seq<char>, i: nat)
    ensures
        slot_from(t, name, i) matches Slot::Free(j) ==> i <= j < ENTRIES_PER_SECTOR,
    decreases ENTRIES_PER_SECTOR - i,
{
    if i < ENTRIES_PER_SECTOR && entry_kind(t, i as int) != ENTRY_UNUSED && entry_name(t, i as int) != name {
        lemma_slot_range(t, name, i + 1);
    }
}

/// The slot for a new entry named `name`.
pub fn find_slot(t: &[u8], name: &str) -> (res: Slot)
    requires
        t@.len() == SECTOR_SIZE,
    ensures
        res == slot_from(t@, name@, 0),
        res matches Slot::Free(i) ==> i < ENTRIES_PER_SECTOR,
{
    proof { lemma_slot_range(t@, name@, 0); }
    let mut i: usize = 0;
    while i < ENTRIES_PER_SECTOR
        invariant
            t@.len() == SECTOR_SIZE,
            i <= ENTRIES_PER_SECTOR,
            slot_from(t@, name@, 0) == slot_from(t@, name@, i as nat),
        decreases ENTRIES_PER_SECTOR - i,
    {
        if t[i * ENTRY_SIZE + 44] != ENTRY_UNUSED {
            let n = entry_name_of(t, i);
            if str_eq(n.as_str(), name) {
                return Slot::Taken;
            }
        } else {
            return Slot::Free(i);
        }
        i = i + 1;
    }
    Slot::Full
}

// ---------------------------------------------------------------------------
// Placing a file's data.

/// Whether sector `s` (relative to the partition) belongs to one of the first `n` entries.
pub open spec fn occupied(t: Seq<u8>, n: nat, s: int) -> bool
    decreases n,
{
    n > 0 && ((entry_kind(t, n - 1) != ENTRY_UNUSED && entry_start(t, n - 1) <= s < entry_start(t, n - 1)
        + entry_sectors(t, n - 1)) || occupied(t, (n - 1) as nat, s))
}

/// The extents of the first `n` entries in use end within 32-bit sector numbers.
pub open spec fn extents_fit(t: Seq<u8>, n: nat) -> bool {
    forall|j: int| 0 <= j < n ==> #[trigger] entry_kind(t, j) != ENTRY_UNUSED ==> entry_start(t, j) + entry_sectors(t, j)
        <= 0x1_0000_0000
}

/// The first sector from `s` up to `limit` that none of the first `n` entries holds;
/// sector 2 when there is none.
pub open spec fn first_free(t: Seq<u8>, n: nat, s: nat, limit: nat) -> nat
    decreases limit - s,
{
    if s >= limit {
        2
    } else if !occupied(t, n, s as int) {
        s
    } else {
        first_free(t, n, s + 1, limit)
    }
}

/// The first data sector for a file stored in entry `slot`: the first sector from 2 that
/// no earlier entry holds, searched below `min(free_sectors, 8190)`.
pub fn place_file(t: &[u8], slot: usize, free_sectors: u64) -> (res: u32)
    requires
        t@.len() == SECTOR_SIZE,
        slot <= ENTRIES_PER_SECTOR,
        extents_fit(t@, slot as nat),
    ensures
        res as nat == first_free(t@, slot as nat, 2, if free_sectors < 8190 { free_sectors as nat } else { 8190 }),
{
    let mut occ: Vec<bool> = Vec::new();
    let mut z: usize = 0;
    while z < 8192
        invariant
            z <= 8192,
            occ@.len() == z,
            forall|s: int| 0 <= s < z ==> !occ@[s],
        decreases 8192 - z,
    {
        occ.push(false);
        z = z + 1;
    }
    let mut j: usize = 0;
    while j < slot
        invariant
            t@.len() == SECTOR_SIZE,
            slot <= ENTRIES_PER_SECTOR,
            j <= slot,
            extents_fit(t@, slot as nat),
            occ@.len() == 8192,
            forall|s: int| 0 <= s < 8192 ==> occ@[s] == occupied(t@, j as nat, s),
        decreases slot - j,
    {
        let joff = j * ENTRY_SIZE;
        if t[joff + 44] != ENTRY_UNUSED {
            let existing_off = get_le32(t, joff + 32);
            let existing_cnt = get_le32(t, joff + 36);
            assert(entry_kind(t@, j as int) != ENTRY_UNUSED);
            let mut k: u32 = 0;
            while k < existing_cnt
                invariant
                    t@.len() == SECTOR_SIZE,
                    j < slot <= ENTRIES_PER_SECTOR,
                    joff == j * ENTRY_SIZE,
                    existing_off as nat == entry_start(t@, j as int),
                    existing_cnt as nat == entry_sectors(t@, j as int),
                    existing_off + existing_cnt <= 0x1_0000_0000,
                    k <= existing_cnt,
                    occ@.len() == 8192,
                    forall|s: int| 0 <= s < 8192 ==> occ@[s] == (occupied(t@, j as nat, s)
                        || (existing_off <= s < existing_off + k)),
                decreases existing_cnt - k,
            {
                let idx = (existing_off + k) as usize;
                if idx < 8192 {
                    occ.set(idx, true);
                }
                k = k + 1;
            }
        }
        j = j + 1;
    }
    let limit: u32 = if free_sectors < 8190 { free_sectors as u32 } else { 8190 };
    let mut search: u32 = 2;
    while search < limit
        invariant
            occ@.len() == 8192,
            limit <= 8190,
            limit as nat == (if free_sectors < 8190 { free_sectors as nat } else { 8190 }),
            2 <= search,
            forall|s: int| 0 <= s < 8192 ==> occ@[s] == occupied(t@, slot as nat, s),
            first_free(t@, slot as nat, 2, limit as nat) == first_free(t@, slot as nat, search as nat, limit as nat),
        decreases limit - search,
    {
        if !occ[search as usize] {
            return search;
        }
        search = search + 1;
    }
    2
}

// ---------------------------------------------------------------------------
// Writing entries.

/// The 32-byte name field for a name's bytes: at most 31 of them, then zeros.
pub open spec fn name_field(b: Seq<u8>) -> Seq<u8> {
    Seq::new(32, |k: int| if k < b.len() && k < 31 { b[k] } else { 0u8 })
}

/// `t` with entry `i` holding the given name field, extent, size and kind.
pub open spec fn with_entry(t: Seq<u8>, i: int, name: Seq<u8>, start: u32, sectors: u32, size: u32, kind: u8) -> Seq<u8> {
    let off = i * 45;
    let named = Seq::new(t.len(), |k: int| if off <= k < off + 32 { name[k - off] } else { t[k] });
    with_le32(with_le32(with_le32(named, off + 32, start), off + 36, sectors), off + 40, size).update(off + 44, kind)
}

/// Stores entry `i`.
pub fn store_entry(t: &mut Vec<u8>, i: usize, name: &[u8], start: u32, sectors: u32, size: u32, kind: u8)
    requires
        old(t)@.len() == SECTOR_SIZE,
        i < ENTRIES_PER_SECTOR,
    ensures
        final(t)@ == with_entry(old(t)@, i as int, name_field(name@), start, sectors, size, kind),
        final(t)@.len() == SECTOR_SIZE,
{
    let off = i * ENTRY_SIZE;
    let mut k: usize = 0;
    while k < 32
        invariant
            t@.len() == SECTOR_SIZE,
            off == i * 45,
            i < ENTRIES_PER_SECTOR,
            k <= 32,
            forall|m: int| 0 <= m < SECTOR_SIZE ==> #[trigger] t@[m] == (if off <= m < off + k {
                name_field(name@)[m - off]
            } else {
                old(t)@[m]
            }),
        decreases 32 - k,
    {
        let b: u8 = if k < name.len() && k < 31 { name[k] } else { 0 };
        t.set(off + k, b);
        k = k + 1;
    }
    let ghost named = t@;
    assert(named =~= Seq::new(old(t)@.len(), |m: int| if off <= m < off + 32 { name_field(name@)[m - off] } else {
        old(t)@[m]
    }));
    set_le32(t, off + 32, start);
    set_le32(t, off + 36, sectors);
    set_le32(t, off + 40, size);
    t.set(off + 44, kind);
}

/// The sectors a file of `len` bytes takes.
pub open spec fn sectors_for(len: nat) -> nat {
    (len + 511) / 512
}

/// A planned file write: the new table, and where the data goes (relative to the
/// partition's start).
pub struct WritePlan {
    pub table: Vec<u8>,
    pub start_offset: u32,
    pub data_sectors: u32,
}

/// Plans writing a file of `len` bytes named `filename` into the table `t`.
pub fn plan_write(t: &[u8], filename: &str, len: usize, free_sectors: u64) -> (res: Result<WritePlan, &'static str>)
    requires
        t@.len() == SECTOR_SIZE,
        sectors_for(len as nat) < 0x1_0000_0000,
        slot_from(t@, filename@, 0) matches Slot::Free(i) ==> extents_fit(t@, i as nat),
    ensures
        match slot_from(t@, filename@, 0) {
            Slot::Taken => res matches Err(e) && e@ == "El archivo ya existe"@,
            Slot::Full => res matches Err(e) && e@ == "Tabla de entradas llena"@,
            Slot::Free(i) => res matches Ok(p) && {
                &&& p.data_sectors == sectors_for(len as nat)
                &&& p.start_offset as nat == first_free(t@, i as nat, 2,
                    if free_sectors < 8190 { free_sectors as nat } else { 8190 })
                &&& p.table@ == with_entry(t@, i as int, name_field(filename.spec_bytes()), p.start_offset,
                    p.data_sectors, len as u32, ENTRY_FILE)
            },
        },
        res matches Ok(p) ==> p.table@.len() == SECTOR_SIZE,
{
    match find_slot(t, filename) {
        Slot::Taken => Err("El archivo ya existe"),
        Slot::Full => Err("Tabla de entradas llena"),
        Slot::Free(i) => {
            let data_sectors = ((len / 512) + (if len % 512 == 0 { 0 } else { 1 })) as u32;
            assert(data_sectors == sectors_for(len as nat));
            let start = place_file(t, i, free_sectors);
            let mut table = copy_bytes(t);
            store_entry(&mut table, i, filename.as_bytes(), start, data_sectors, len as u32, ENTRY_FILE);
            Ok(WritePlan { table, start_offset: start, data_sectors })
        },
    }
}

/// A copy of a byte slice.
pub fn copy_bytes(t: &[u8]) -> (res: Vec<u8>)
    ensures
        res@ == t@,
{
    let mut v: Vec<u8> = Vec::new();
    let mut i: usize = 0;
    while i < t.len()
        invariant
            i <= t@.len(),
            v@ == t@.subrange(0, i as int),
        decreases t@.len() - i,
    {
        v.push(t[i]);
        i = i + 1;
        assert(v@ =~= t@.subrange(0, i as int));
    }
    assert(v@ =~= t@);
    v
}

/// The last component of a path: what follows its last `x` (everything when there is none).
pub open spec fn tail_start<T>(s: Seq<T>, x: T, j: nat) -> nat
    decreases j,
{
    if j == 0 || j > s.len() {
        0
    } else if s[j - 1] == x {
        j
    } else {
        tail_start(s, x, (j - 1) as nat)
    }
}

pub open spec fn after_last<T>(s: Seq<T>, x: T) -> Seq<T> {
    s.subrange(tail_start(s, x, s.len()) as int, s.len() as int)
}

proof fn lemma_tail_start<T>(s: Seq<T>, x: T, j: nat)
    requires
        j <= s.len(),
    ensures
        tail_start(s, x, j) <= j,
    decreases j,
{
    if j > 0 && s[j - 1] != x {
        lemma_tail_start(s, x, (j - 1) as nat);
    }
}

/// Plans creating a directory: its entry takes the last component of `name`.
pub fn plan_mkdir(t: &[u8], name: &str) -> (res: Result<Vec<u8>, &'static str>)
    requires
        t@.len() == SECTOR_SIZE,
    ensures
        match slot_from(t@, after_last(name@, '/'), 0) {
            Slot::Taken => res matches Err(e) && e@ == "La entrada ya existe"@,
            Slot::Full => res matches Err(e) && e@ == "Tabla de entradas llena"@,
            Slot::Free(i) => res matches Ok(nt) && nt@ == with_entry(t@, i as int,
                name_field(after_last(name.spec_bytes(), 0x2fu8)), 0, 0, 0, ENTRY_DIR),
        },
        res matches Ok(nt) ==> nt@.len() == SECTOR_SIZE,
{
    let cs = chars_of(name);
    let mut j: usize = cs.len();
    proof { lemma_tail_start(cs@, '/', cs@.len()); }
    while j > 0 && cs[j - 1] != '/'
        invariant
            cs@ == name@,
            j <= cs@.len(),
            tail_start(cs@, '/', cs@.len()) == tail_start(cs@, '/', j as nat),
        decreases j,
    {
        j = j - 1;
    }
    let base = crate::text::string_from_chars(&cs, j, cs.len());
    let bytes = name.as_bytes();
    let mut b: usize = bytes.len();
    while b > 0 && bytes[b - 1] != 0x2f
        invariant
            bytes@ == name.spec_bytes(),
            b <= bytes@.len(),
            tail_start(bytes@, 0x2fu8, bytes@.len()) == tail_start(bytes@, 0x2fu8, b as nat),
        decreases b,
    {
        b = b - 1;
    }
    let tail = copy_range(bytes, b, bytes.len());
    match find_slot(t, base.as_str()) {
        Slot::Taken => Err("La entrada ya existe"),
        Slot::Full => Err("Tabla de entradas llena"),
        Slot::Free(i) => {
            let mut table = copy_bytes(t);
            store_entry(&mut table, i, tail.as_slice(), 0, 0, 0, ENTRY_DIR);
            Ok(table)
        },
    }
}

/// The bytes of `t` from `from` to `to`.
pub fn copy_range(t: &[u8], from: usize, to: usize) -> (res: Vec<u8>)
    requires
        from <= to <= t@.len(),
    ensures
        res@ == t@.subrange(from as int, to as int),
{
    let mut v: Vec<u8> = Vec::new();
    let mut i: usize = from;
    while i < to
        invariant
            from <= i <= to <= t@.len(),
            v@ == t@.subrange(from as int, i as int),
        decreases to - i,
    {
        v.push(t[i]);
        i = i + 1;
        assert(v@ =~= t@.subrange(from as int, i as int));
    }
    v
}

/// Plans removing the entry named `name`: the first one in use with that name is marked
/// unused.
pub fn plan_remove(t: &[u8], name: &str) -> (res: Result<Vec<u8>, &'static str>)
    requires
        t@.len() == SECTOR_SIZE,
    ensures
        match find_from(t@, name@, 0) {
            Some(i) => res matches Ok(nt) && nt@ == t@.update(i as int * 45 + 44, ENTRY_UNUSED),
            None => res matches Err(e) && e@ == "Entrada no encontrada"@,
        },
        res matches Ok(nt) ==> nt@.len() == SECTOR_SIZE,
{
    match find_entry(t, name) {
        Some(i) => {
            proof { lemma_find_range(t@, name@, 0); }
            let mut table = copy_bytes(t);
            table.set(i * ENTRY_SIZE + 44, ENTRY_UNUSED);
            Ok(table)
        },
        None => Err("Entrada no encontrada"),
    }
}

proof fn lemma_find_range(t: Seq<u8>, name: Seq<char>, i: nat)
    ensures
        find_from(t, name, i) matches Some(j) ==> i <= j < ENTRIES_PER_SECTOR,
    decreases ENTRIES_PER_SECTOR - i,
{
    if i < ENTRIES_PER_SECTOR && !(entry_kind(t, i as int) != ENTRY_UNUSED && entry_name(t, i as int) == name) {
        lemma_find_range(t, name, i + 1);
    }
}

// ---------------------------------------------------------------------------
// The header's file count (the 32-bit word at byte 12).

/// The header with its file count one higher; `None` when the count cannot grow.
pub fn bump_file_count(h: &[u8]) -> (res: Option<Vec<u8>>)
    requires
        h@.len() == SECTOR_SIZE,
    ensures
        le32(h@, 12) < 0xFFFF_FFFF ==> (res matches Some(nh) && nh@ == with_le32(h@, 12, (le32(h@, 12) + 1) as u32)),
        le32(h@, 12) == 0xFFFF_FFFF ==> res is None,
{
    let count = get_le32(h, 12);
    if count == 0xFFFF_FFFF {
        return None;
    }
    let mut nh = copy_bytes(h);
    set_le32(&mut nh, 12, count + 1);
    Some(nh)
}

/// The header with its file count one lower; `None` when it is already zero.
pub fn drop_file_count(h: &[u8]) -> (res: Option<Vec<u8>>)
    requires
        h@.len() == SECTOR_SIZE,
    ensures
        le32(h@, 12) > 0 ==> (res matches Some(nh) && nh@ == with_le32(h@, 12, (le32(h@, 12) - 1) as u32)),
        le32(h@, 12) == 0 ==> res is None,
{
    let count = get_le32(h, 12);
    if count == 0 {
        return None;
    }
    let mut nh = copy_bytes(h);
    set_le32(&mut nh, 12, count - 1);
    Some(nh)
}


// ---------------------------------------------------------------------------
// Headers and the GPT.

/// The bytes of a new header for a partition of `sectors` sectors: the magic, version 1,
/// the size, no files, zeros.
pub open spec fn header_bytes(sectors: u64) -> Seq<u8> {
    let z = Seq::new(SECTOR_SIZE as nat, |k: int| if k < 8 { seq![0x4du8, 0x45, 0x53, 0x41, 0x5f, 0x46, 0x53, 0x31][k] } else { 0u8 });
    with_le32(with_le64(with_le32(z, 8, MESA_FS_VERSION), 12, sectors), 20, 0)
}

impl MesaFsHeader {
    /// The sector image of the header (packed, little-endian).
    pub fn to_bytes(&self) -> (res: Vec<u8>)
        ensures
            res@.len() == SECTOR_SIZE,
            res@.subrange(0, 8) == self.magic@,
            le32(res@, 8) == self.version,
            le64(res@, 12) == self.total_sectors,
            le32(res@, 20) == self.file_count,
            res@.subrange(24, 512) == self.reserved@,
    {
        let mut v: Vec<u8> = zeros(SECTOR_SIZE);
        let mut k: usize = 0;
        while k < 8
            invariant
                v@.len() == SECTOR_SIZE,
                k <= 8,
                forall|m: int| 0 <= m < k ==> v@[m] == self.magic@[m],
            decreases 8 - k,
        {
            v.set(k, self.magic[k]);
            k = k + 1;
        }
        let mut r: usize = 0;
        while r < 488
            invariant
                v@.len() == SECTOR_SIZE,
                r <= 488,
                forall|m: int| 0 <= m < 8 ==> v@[m] == self.magic@[m],
                forall|m: int| 0 <= m < r ==> v@[24 + m] == self.reserved@[m],
            decreases 488 - r,
        {
            v.set(24 + r, self.reserved[r]);
            r = r + 1;
        }
        let ghost v0 = v@;
        set_le32(&mut v, 8, self.version);
        proof { crate::bytes::lemma_le32_roundtrip(v0, 8, self.version); }
        let ghost v1 = v@;
        set_le64(&mut v, 12, self.total_sectors);
        proof { crate::bytes::lemma_le64_roundtrip(v1, 12, self.total_sectors); }
        let ghost v2 = v@;
        set_le32(&mut v, 20, self.file_count);
        proof {
            crate::bytes::lemma_le32_roundtrip(v2, 20, self.file_count);
            assert(le32(v@, 8) == le32(v2, 8)) by {
                assert(v@[8] == v2[8] && v@[9] == v2[9] && v@[10] == v2[10] && v@[11] == v2[11]);
                assert(v2[8] == v1[8] && v2[9] == v1[9] && v2[10] == v1[10] && v2[11] == v1[11]);
            }
            assert(le64(v@, 12) == le64(v2, 12)) by {
                assert(forall|m: int| 12 <= m < 20 ==> v@[m] == v2[m]);
                assert(v@[12] == v2[12] && v@[13] == v2[13] && v@[14] == v2[14] && v@[15] == v2[15]);
                assert(v@[16] == v2[16] && v@[17] == v2[17] && v@[18] == v2[18] && v@[19] == v2[19]);
            }
            assert(v@.subrange(0, 8) =~= self.magic@);
            assert(v@.subrange(24, 512) =~= self.reserved@);
        }
        v
    }
}

/// A zero-filled buffer.
pub fn zeros(n: usize) -> (res: Vec<u8>)
    ensures
        res@.len() == n,
        forall|k: int| 0 <= k < n ==> res@[k] == 0,
{
    let mut v: Vec<u8> = Vec::new();
    let mut i: usize = 0;
    while i < n
        invariant
            i <= n,
            v@.len() == i,
            forall|k: int| 0 <= k < i ==> v@[k] == 0,
        decreases n - i,
    {
        v.push(0);
        i = i + 1;
    }
    v
}

/// The header written when a partition is formatted.
pub fn format_header(sectors: u64) -> (res: Vec<u8>)
    ensures
        res@ == header_bytes(sectors),
{
    let mut v = zeros(SECTOR_SIZE);
    v.set(0, 0x4d);
    v.set(1, 0x45);
    v.set(2, 0x53);
    v.set(3, 0x41);
    v.set(4, 0x5f);
    v.set(5, 0x46);
    v.set(6, 0x53);
    v.set(7, 0x31);
    assert(v@ =~= Seq::new(SECTOR_SIZE as nat, |k: int| if k < 8 {
        seq![0x4du8, 0x45, 0x53, 0x41, 0x5f, 0x46, 0x53, 0x31][k]
    } else {
        0u8
    }));
    set_le32(&mut v, 8, MESA_FS_VERSION);
    set_le64(&mut v, 12, sectors);
    set_le32(&mut v, 20, 0);
    v
}

/// A header whose size field (the 64-bit word at byte 16) was left at zero, with the
/// partition's size written there; the file count is rewritten as it was.
pub fn fix_header_total(h: &[u8], total: u64) -> (res: Vec<u8>)
    requires
        h@.len() == SECTOR_SIZE,
    ensures
        res@ == with_le32(with_le64(h@, 16, total), 12, le32(h@, 12) as u32),
{
    let count = get_le32(h, 12);
    let mut v = copy_bytes(h);
    set_le64(&mut v, 16, total);
    set_le32(&mut v, 12, count);
    v
}

/// Whether any byte of `s` is not zero.
pub fn any_nonzero(s: &[u8]) -> (res: bool)
    ensures
        res == exists|k: int| 0 <= k < s@.len() && s@[k] != 0,
{
    let mut i: usize = 0;
    while i < s.len()
        invariant
            i <= s@.len(),
            forall|k: int| 0 <= k < i ==> s@[k] == 0,
        decreases s@.len() - i,
    {
        if s[i] != 0 {
            return true;
        }
        i = i + 1;
    }
    false
}

/// The GPT header's signature `EFI PART`.
pub open spec fn is_gpt_header(h: Seq<u8>) -> bool {
    h.len() >= 92 && h[0] == 0x45 && h[1] == 0x46 && h[2] == 0x49 && h[3] == 0x20 && h[4] == 0x50 && h[5] == 0x41
        && h[6] == 0x52 && h[7] == 0x54
}

/// Where the GPT's partition entries are: their first sector, their number and their size.
pub fn gpt_table_location(h: &[u8]) -> (res: Option<(u64, u32, u32)>)
    requires
        h@.len() == SECTOR_SIZE,
    ensures
        match res {
            Some((lba, n, size)) => is_gpt_header(h@) && lba == le64(h@, 72) && n == le32(h@, 80) && size == le32(h@, 84),
            None => !is_gpt_header(h@),
        },
{
    if h[0] == 0x45 && h[1] == 0x46 && h[2] == 0x49 && h[3] == 0x20 && h[4] == 0x50 && h[5] == 0x41 && h[6] == 0x52
        && h[7] == 0x54 {
        Some((get_le64(h, 72), get_le32(h, 80), get_le32(h, 84)))
    } else {
        None
    }
}

/// How the entries are read: entries per sector, and the sectors to read (at most 32).
/// Entry sizes of zero or above a sector leave no whole entry in a sector: `None`.
pub fn gpt_scan_plan(num_entries: u32, entry_size: u32) -> (res: Option<(usize, usize)>)
    ensures
        match res {
            Some((per, secs)) => 1 <= entry_size <= 512 && per == 512nat / (entry_size as nat)
                && secs == (if (num_entries + per - 1) / (per as int) < 32 { (num_entries + per - 1) / (per as int) } else { 32 }),
            None => entry_size == 0 || entry_size > 512,
        },
{
    if entry_size == 0 || entry_size > 512 {
        return None;
    }
    let per: usize = 512 / entry_size as usize;
    assert(per >= 1) by (nonlinear_arith) requires per == 512nat / (entry_size as nat), 1 <= entry_size <= 512;
    let total: u64 = (num_entries as u64 + per as u64 - 1) / per as u64;
    Some((per, if total < 32 { total as usize } else { 32 }))
}

/// A partition found in the GPT: first and last sector.
pub open spec fn gpt_entry_ok(s: Seq<u8>, off: int) -> bool {
    &&& off + 48 <= 512
    &&& le64(s, off + 32) <= le64(s, off + 40)
    &&& le64(s, off + 40) - le64(s, off + 32) < u64::MAX
    &&& le64(s, off + 32) + 0x1_0000_0000 <= u64::MAX
}

/// Whether the 16-byte type GUID at `off` is all zeros (an unused entry).
pub open spec fn guid_is_zero(s: Seq<u8>, off: int) -> bool {
    forall|k: int| off <= k < off + 16 ==> s[k] == 0
}

/// The partitions of a sector of entries from entry `ei` on, in order, and whether the
/// scan reached the end of the sector: it stops at the first entry in use that is
/// malformed (an extent that runs backwards, or does not fit the sector or 64-bit
/// sector numbers).
pub open spec fn gpt_parts(s: Seq<u8>, per: nat, size: nat, ei: nat) -> (Seq<(u64, u64)>, bool)
    decreases per - ei,
{
    if ei >= per || ei * size + 16 > 512 {
        (Seq::empty(), true)
    } else if guid_is_zero(s, (ei * size) as int) {
        gpt_parts(s, per, size, ei + 1)
    } else if !gpt_entry_ok(s, (ei * size) as int) {
        (Seq::empty(), false)
    } else {
        let rest = gpt_parts(s, per, size, ei + 1);
        (seq![(le64(s, (ei * size + 32) as int) as u64, le64(s, (ei * size + 40) as int) as u64)] + rest.0, rest.1)
    }
}

/// The partitions listed in one sector of GPT entries.
pub fn gpt_partitions(s: &[u8], per: usize, size: u32) -> (res: (Vec<(u64, u64)>, bool))
    requires
        s@.len() == SECTOR_SIZE,
        1 <= size <= 512,
        per == 512nat / (size as nat),
    ensures
        (res.0@, res.1) == gpt_parts(s@, per as nat, size as nat, 0),
{
    let mut parts: Vec<(u64, u64)> = Vec::new();
    let mut ei: usize = 0;
    let mut complete = true;
    while ei < per
        invariant_except_break
            complete,
            gpt_parts(s@, per as nat, size as nat, 0) == (parts@ + gpt_parts(s@, per as nat, size as nat, ei as nat).0,
                gpt_parts(s@, per as nat, size as nat, ei as nat).1),
        invariant
            s@.len() == SECTOR_SIZE,
            1 <= size <= 512,
            per == 512nat / (size as nat),
            ei <= per,
        ensures
            gpt_parts(s@, per as nat, size as nat, 0) == (parts@, complete),
        decreases per - ei,
    {
        assert(ei * size <= 512) by (nonlinear_arith) requires ei < per, per == 512nat / (size as nat), size >= 1;
        let off: usize = ei * size as usize;
        if off + 16 > 512 {
            assert(parts@ + Seq::<(u64, u64)>::empty() =~= parts@);
            break;
        }
        let mut zero = true;
        let mut k: usize = 0;
        while k < 16
            invariant
                s@.len() == SECTOR_SIZE,
                off + 16 <= 512,
                k <= 16,
                zero == (forall|m: int| off <= m < off + k ==> s@[m] == 0),
            decreases 16 - k,
        {
            if s[off + k] != 0 {
                zero = false;
            }
            k = k + 1;
        }
        if zero {
            ei = ei + 1;
            continue;
        }
        assert(!guid_is_zero(s@, off as int));
        if off + 48 > 512 {
            proof {
                assert(!gpt_entry_ok(s@, off as int));
                assert(gpt_parts(s@, per as nat, size as nat, ei as nat) == (Seq::<(u64, u64)>::empty(), false));
                assert(parts@ + Seq::<(u64, u64)>::empty() =~= parts@);
            }
            complete = false;
            break;
        }
        let start = get_le64(s, off + 32);
        let end = get_le64(s, off + 40);
        if end < start || end - start == u64::MAX || start > u64::MAX - 0x1_0000_0000 {
            proof {
                assert(!gpt_entry_ok(s@, off as int));
                assert(gpt_parts(s@, per as nat, size as nat, ei as nat) == (Seq::<(u64, u64)>::empty(), false));
                assert(parts@ + Seq::<(u64, u64)>::empty() =~= parts@);
            }
            complete = false;
            break;
        }
        let ghost before = parts@;
        parts.push((start, end));
        proof {
            let g = gpt_parts(s@, per as nat, size as nat, (ei + 1) as nat);
            assert(parts@ + g.0 =~= before + (seq![(start, end)] + g.0));
        }
        ei = ei + 1;
    }
    (parts, complete)
}


// ---------------------------------------------------------------------------
// On a device.

/// Reads one sector; `None` when the device reports an error.
pub fn read_sector<D: BlockDevice>(dev: &D, lba: u64) -> (res: Option<Vec<u8>>)
    ensures
        res matches Some(v) ==> v@.len() == SECTOR_SIZE && v@ == dev.sector(lba as int),
        dev.readable(lba as int) ==> res is Some,
{
    let mut buf = zeros(SECTOR_SIZE);
    proof {
        if dev.readable(lba as int) {
            assert forall|k: int| 0 <= k < 1 implies #[trigger] dev.readable(lba + k) by {
                assert(k == 0);
            }
        }
    }
    match dev.read(lba, 1, buf.as_mut_slice()) {
        Ok(()) => {
            assert(buf@.subrange(0int * 512, 0int * 512 + 512) == dev.sector(lba + 0int));
            assert(buf@ =~= buf@.subrange(0, 512));
            Some(buf)
        },
        Err(_) => None,
    }
}

/// The files of the mounted file system; nothing when none is mounted or the table cannot
/// be read. What is listed is `files_in_table` of the sector read; a table the device can
/// read is read.
pub fn mesa_fs_list_files<D: BlockDevice>(dev: &D, state: &MesaFsState) -> (res: Vec<(String, u32, u32)>)
    requires
        state.wf(),
    ensures
        !state.initialized ==> res@.len() == 0,
        state.initialized ==> res@.len() == 0
            || files_view(res@) == file_list(dev.sector(state.free_start_lba + 1), ENTRIES_PER_SECTOR as nat),
        state.initialized && dev.readable(state.free_start_lba + 1)
            ==> files_view(res@) == file_list(dev.sector(state.free_start_lba + 1), ENTRIES_PER_SECTOR as nat),
{
    if !state.initialized {
        return Vec::new();
    }
    match read_sector(dev, state.free_start_lba + 1) {
        Some(t) => {
            let v = files_in_table(t.as_slice());
            assert(file_list(t@, ENTRIES_PER_SECTOR as nat) == files_view(v@));
            v
        },
        None => Vec::new(),
    }
}

/// Every entry in use (files and directories) of the mounted file system.
pub fn mesa_fs_list_dir<D: BlockDevice>(dev: &D, state: &MesaFsState) -> (res: Vec<(String, u8, u32, u32)>)
    requires
        state.wf(),
    ensures
        !state.initialized ==> res@.len() == 0,
        state.initialized ==> res@.len() == 0
            || dir_view(res@) == dir_list(dev.sector(state.free_start_lba + 1), ENTRIES_PER_SECTOR as nat),
        state.initialized && dev.readable(state.free_start_lba + 1)
            ==> dir_view(res@) == dir_list(dev.sector(state.free_start_lba + 1), ENTRIES_PER_SECTOR as nat),
{
    if !state.initialized {
        return Vec::new();
    }
    match read_sector(dev, state.free_start_lba + 1) {
        Some(t) => {
            let v = entries_in_table(t.as_slice());
            assert(dir_list(t@, ENTRIES_PER_SECTOR as nat) == dir_view(v@));
            v
        },
        None => Vec::new(),
    }
}

/// Where an entry's data lies: first sector relative to the partition, sectors, bytes.
#[derive(Debug, Clone, Copy, PartialEq, Eq, Structural)]
pub struct FileExtent {
    pub start_offset: u32,
    pub sector_count: u32,
    pub size_bytes: u32,
}

/// The extent recorded in entry `i`.
pub fn entry_extent(t: &[u8], i: usize) -> (res: FileExtent)
    requires
        t@.len() == SECTOR_SIZE,
        i < ENTRIES_PER_SECTOR,
    ensures
        res.start_offset == entry_start(t@, i as int),
        res.sector_count == entry_sectors(t@, i as int),
        res.size_bytes == entry_bytes(t@, i as int),
{
    let off = i * ENTRY_SIZE;
    FileExtent {
        start_offset: get_le32(t, off + 32),
        sector_count: get_le32(t, off + 36),
        size_bytes: get_le32(t, off + 40),
    }
}

/// The bytes that reading the entry named `name` gives, on a device whose MesaFS
/// partition starts at sector `base`: the entry's sectors from its start (as many as a
/// 16-bit sector count reaches; the rest of its length reads as zeros), cut to its size.
/// `None` when no entry in use has that name.
pub open spec fn stored_file<D: BlockDevice>(dev: D, base: int, name: Seq<char>) -> Option<Seq<u8>> {
    let t = dev.sector(base + 1);
    match find_from(t, name, 0) {
        None => None,
        Some(i) => {
            let start = base + entry_start(t, i as int);
            let total = entry_sectors(t, i as int) * 512;
            let n = (entry_sectors(t, i as int) % 0x1_0000) * 512;
            let raw = Seq::new(total, |k: int| if k < n { dev.sector(start + k / 512)[k % 512] } else { 0u8 });
            Some(if entry_bytes(t, i as int) <= total { raw.subrange(0, entry_bytes(t, i as int) as int) } else { raw })
        },
    }
}

/// The sectors that reading `name` needs can be read: the table, and the entry's data
/// sectors (at least one) when the name is there, whose bytes fit in memory.
pub open spec fn file_readable<D: BlockDevice>(dev: D, base: int, name: Seq<char>) -> bool {
    let t = dev.sector(base + 1);
    dev.readable(base + 1) && match find_from(t, name, 0) {
        None => true,
        Some(i) => {
            let c = entry_sectors(t, i as int) % 0x1_0000;
            c >= 1 && entry_sectors(t, i as int) * 512 <= usize::MAX
                && forall|k: int| 0 <= k < c ==> #[trigger] dev.readable(base + entry_start(t, i as int) + k)
        },
    }
}

/// The contents of the file (or directory entry) named `filename`: its sectors read
/// from the partition, cut to its size. `None` when nothing is mounted, the table or the
/// data cannot be read, or no entry has that name.
#[verifier::spinoff_prover]
pub fn mesa_fs_read_file<D: BlockDevice>(dev: &D, state: &MesaFsState, filename: &str) -> (res: Option<Vec<u8>>)
    requires
        state.wf(),
    ensures
        !state.initialized ==> res is None,
        res matches Some(v) ==> stored_file(*dev, state.free_start_lba as int, filename@) == Some(v@),
        state.initialized && file_readable(*dev, state.free_start_lba as int, filename@)
            ==> opt_view(res) == stored_file(*dev, state.free_start_lba as int, filename@),
{
    if !state.initialized {
        return None;
    }
    let t = match read_sector(dev, state.free_start_lba + 1) {
        Some(t) => t,
        None => return None,
    };
    let i = match find_entry(t.as_slice(), filename) {
        Some(i) => i,
        None => return None,
    };
    proof { lemma_find_range(t@, filename@, 0); }
    let ext = entry_extent(t.as_slice(), i);
    let bytes = (ext.sector_count as u64) * 512;
    if bytes > usize::MAX as u64 {
        return None;
    }
    let mut data = zeros(bytes as usize);
    let count: u16 = (ext.sector_count % 0x1_0000) as u16;
    let lba = state.free_start_lba + ext.start_offset as u64;
    proof {
        assert(data@.len() == bytes);
        assert(count * 512 <= bytes) by (nonlinear_arith)
            requires count == ext.sector_count % 0x1_0000, bytes == ext.sector_count * 512;
    }
    if dev.read(lba, count, data.as_mut_slice()).is_err() {
        return None;
    }
    let ghost n: int = count as int * 512;
    let ghost raw = Seq::new(bytes as nat, |k: int| if k < n { dev.sector(lba + k / 512)[k % 512] } else { 0u8 });
    proof {
        assert forall|k: int| 0 <= k < bytes implies data@[k] == raw[k] by {
            if k < n {
                let j = k / 512;
                assert(0 <= j < count);
                assert(j * 512 <= k < j * 512 + 512);
                assert(data@.subrange(j * 512, j * 512 + 512) == dev.sector(lba + j));
                assert(data@.subrange(j * 512, j * 512 + 512)[k - j * 512] == data@[k]);
                assert(k - j * 512 == k % 512);
            }
        }
        assert(data@ =~= raw);
    }
    data.truncate(ext.size_bytes as usize);
    Some(data)
}

/// Whether the extents of the entries before `n` end within 32-bit sector numbers.
pub fn check_extents(t: &[u8], n: usize) -> (res: bool)
    requires
        t@.len() == SECTOR_SIZE,
        n <= ENTRIES_PER_SECTOR,
    ensures
        res == extents_fit(t@, n as nat),
{
    let mut j: usize = 0;
    while j < n
        invariant
            t@.len() == SECTOR_SIZE,
            n <= ENTRIES_PER_SECTOR,
            j <= n,
            extents_fit(t@, j as nat),
        decreases n - j,
    {
        let off = j * ENTRY_SIZE;
        if t[off + 44] != ENTRY_UNUSED {
            let a = get_le32(t, off + 32) as u64;
            let b = get_le32(t, off + 36) as u64;
            if a + b > 0x1_0000_0000 {
                assert(entry_kind(t@, j as int) != ENTRY_UNUSED);
                return false;
            }
        }
        j = j + 1;
    }
    true
}

/// Where a file's data is placed is at least sector 2 and below 8190.
proof fn lemma_first_free_range(t: Seq<u8>, n: nat, s: nat, limit: nat)
    requires
        s >= 2,
        limit <= 8190,
    ensures
        2 <= first_free(t, n, s, limit) < 8190,
    decreases limit - s,
{
    if s < limit && occupied(t, n, s as int) {
        lemma_first_free_range(t, n, s + 1, limit);
    }
}

/// The planned write of a file of `len` bytes named `filename` into the table `t`: the
/// new table, the data's first sector (relative to the partition) and its number of
/// sectors; or the refusal. A table whose extents before the chosen slot overflow 32-bit
/// sector numbers is refused as unreadable.
pub open spec fn write_plan(t: Seq<u8>, filename: &str, len: nat, free_sectors: u64) -> Result<(Seq<u8>, nat, nat), Seq<char>> {
    match slot_from(t, filename@, 0) {
        Slot::Taken => Err("El archivo ya existe"@),
        Slot::Full => Err("Tabla de entradas llena"@),
        Slot::Free(i) => if !extents_fit(t, i as nat) {
            Err("Error leyendo tabla de entradas"@)
        } else {
            let start = first_free(t, i as nat, 2, if free_sectors < 8190 { free_sectors as nat } else { 8190 });
            Ok((with_entry(t, i as int, name_field(filename.spec_bytes()), start as u32, sectors_for(len) as u32,
                len as u32, ENTRY_FILE), start, sectors_for(len)))
        },
    }
}

/// Sector `k` of a file's data: 512 bytes of `data` from `k * 512`, zero past its end.
pub open spec fn data_sector(data: Seq<u8>, k: int) -> Seq<u8> {
    Seq::new(512, |j: int| if k * 512 + j < data.len() { data[k * 512 + j] } else { 0u8 })
}

/// `after` holds what `before` holds, but the file's new table at `base + 1`, the header
/// `nh` at `base`, and data sector `k` at `first + k` for each `k` below `count`.
pub open spec fn file_written<D: BlockDevice>(after: D, before: D, base: int, nt: Seq<u8>, nh: Seq<u8>, first: int,
    count: nat, data: Seq<u8>) -> bool
{
    forall|l: int| #[trigger] after.sector(l) == if l == base + 1 {
        nt
    } else if l == base {
        nh
    } else if first <= l < first + count {
        data_sector(data, l - first)
    } else {
        before.sector(l)
    }
}

/// Stores a file: a new entry in the first free slot, the data in the first free sectors
/// after the table, the file count raised by one.
///
/// The table is read before any decision on it; a table whose extents overflow 32-bit
/// sector numbers is reported as unreadable.
#[verifier::spinoff_prover]
pub fn mesa_fs_write_file<D: BlockDevice>(dev: &mut D, state: &MesaFsState, filename: &str, data: &[u8]) -> (res: Result<(), &'static str>)
    requires
        state.wf(),
        sectors_for(data@.len()) + 2 <= 0xFFFF_FFFF,
    ensures
        !state.initialized ==> (res matches Err(e) && e@ == "MesaFS no inicializado"@) && *final(dev) == *old(dev),
        (res matches Err(e) && e@ == "MesaFS no inicializado"@) ==> !state.initialized,
        state.initialized && sectors_for(data@.len()) + 2 > state.free_sectors ==>
            (res matches Err(e) && e@ == "No hay suficiente espacio libre"@) && *final(dev) == *old(dev),
        state.initialized && sectors_for(data@.len()) + 2 <= state.free_sectors ==> ({
            let base = state.free_start_lba as int;
            let h = old(dev).sector(base);
            match write_plan(old(dev).sector(base + 1), filename, data@.len(), state.free_sectors) {
                Err(m) => *final(dev) == *old(dev) && (res matches Err(e)
                    && (e@ == m || e@ == "Error leyendo tabla de entradas"@)),
                Ok(p) => match res {
                    Ok(()) => h.len() == SECTOR_SIZE && le32(h, 12) < 0xFFFF_FFFF && 2 <= p.1 < 8190
                        && file_written(*final(dev), *old(dev), base, p.0, with_le32(h, 12, (le32(h, 12) + 1) as u32),
                        base + p.1, p.2 % 0x1_0000, data@),
                    Err(e) => device_error(e@) || e@ == "Error escribiendo datos del archivo"@,
                },
            }
        }),
{
    proof {
        lemma_error_texts();
    }
    if !state.initialized {
        return Err("MesaFS no inicializado");
    }
    let len = data.len();
    let data_sectors = ((len / 512) + (if len % 512 == 0 { 0 } else { 1 })) as u32;
    let total_needed = data_sectors + 2;
    if total_needed as u64 > state.free_sectors {
        return Err("No hay suficiente espacio libre");
    }
    let ghost d0 = *dev;
    let base = state.free_start_lba;
    let t = match read_sector(dev, state.free_start_lba + 1) {
        Some(t) => t,
        None => return Err("Error leyendo tabla de entradas"),
    };
    let slot = find_slot(t.as_slice(), filename);
    if let Slot::Free(i) = slot {
        if !check_extents(t.as_slice(), i) {
            return Err("Error leyendo tabla de entradas");
        }
    }
    let plan = match plan_write(t.as_slice(), filename, len, state.free_sectors) {
        Ok(p) => p,
        Err(e) => return Err(e),
    };
    let ghost i: usize = match slot { Slot::Free(i) => i, _ => 0 };
    proof {
        lemma_first_free_range(t@, i as nat, 2, if state.free_sectors < 8190 { state.free_sectors as nat } else { 8190 });
    }
    if dev.write(state.free_start_lba + 1, 1, plan.table.as_slice()).is_err() {
        return Err("Error escribiendo tabla de entradas");
    }
    assert(plan.table@.subrange(0, 512) =~= plan.table@);
    let ghost d1 = *dev;
    let padded_len: u64 = plan.data_sectors as u64 * 512;
    if padded_len > usize::MAX as u64 {
        return Err("Error escribiendo datos del archivo");
    }
    let mut padded = zeros(padded_len as usize);
    let mut k: usize = 0;
    while k < len
        invariant
            k <= len,
            len == data@.len(),
            padded@.len() == plan.data_sectors * 512,
            plan.data_sectors == sectors_for(len as nat),
            forall|q: int| 0 <= q < k ==> padded@[q] == data@[q],
            forall|q: int| k <= q < padded@.len() ==> padded@[q] == 0,
        decreases len - k,
    {
        padded.set(k, data[k]);
        k = k + 1;
    }
    let count: u16 = (plan.data_sectors % 0x1_0000) as u16;
    let first = state.free_start_lba + plan.start_offset as u64;
    if dev.write(first, count, padded.as_slice()).is_err() {
        return Err("Error escribiendo datos del archivo");
    }
    let ghost d2 = *dev;
    proof {
        assert forall|l: int| first <= l < first + count implies #[trigger] d2.sector(l) == data_sector(data@, l - first) by {
            let kk = l - first;
            assert(kk < plan.data_sectors);
            assert(kk * 512 + 512 <= plan.data_sectors * 512) by (nonlinear_arith)
                requires kk < plan.data_sectors;
            assert(d2.sector(l) == padded@.subrange(kk * 512, kk * 512 + 512));
            assert(padded@.subrange(kk * 512, kk * 512 + 512) =~= data_sector(data@, kk));
        }
    }
    let h = match read_sector(dev, state.free_start_lba) {
        Some(h) => h,
        None => return Err("Error leyendo cabecera"),
    };
    let nh = match bump_file_count(h.as_slice()) {
        Some(nh) => nh,
        None => return Err("Error actualizando cabecera"),
    };
    if dev.write(state.free_start_lba, 1, nh.as_slice()).is_err() {
        return Err("Error actualizando cabecera");
    }
    proof {
        assert(nh@.subrange(0, 512) =~= nh@);
        assert forall|l: int| #[trigger] dev.sector(l) == (if l == base + 1 { plan.table@ } else if l == base { nh@ }
            else if first <= l < first + count { data_sector(data@, l - first) } else { d0.sector(l) }) by {
            assert(dev.sector(l) == if l == base { nh@.subrange(0, 512) } else { d2.sector(l) });
            assert(d2.sector(l) == if first <= l < first + count { padded@.subrange((l - first) * 512, (l - first) * 512 + 512) }
                else { d1.sector(l) });
        }
    }
    Ok(())
}

/// `after` holds what `before` holds, but `sa` at sector `a`.
pub open spec fn one_written<D: BlockDevice>(after: D, before: D, a: int, sa: Seq<u8>) -> bool {
    forall|l: int| #[trigger] after.sector(l) == if l == a { sa } else { before.sector(l) }
}

/// `after` holds what `before` holds, but `sa` at sector `a` and `sb` at sector `b`.
pub open spec fn two_written<D: BlockDevice>(after: D, before: D, a: int, sa: Seq<u8>, b: int, sb: Seq<u8>) -> bool {
    forall|l: int| #[trigger] after.sector(l) == if l == a { sa } else if l == b { sb } else { before.sector(l) }
}

/// The entry table after creating the directory `name` in `t`, or the refusal.
pub open spec fn mkdir_plan(t: Seq<u8>, name: &str) -> Result<Seq<u8>, Seq<char>> {
    match slot_from(t, after_last(name@, '/'), 0) {
        Slot::Taken => Err("La entrada ya existe"@),
        Slot::Full => Err("Tabla de entradas llena"@),
        Slot::Free(i) => Ok(with_entry(t, i as int, name_field(after_last(name.spec_bytes(), 0x2fu8)), 0, 0, 0,
            ENTRY_DIR)),
    }
}

/// The entry table after removing the entry `name` from `t`, or the refusal.
pub open spec fn remove_plan(t: Seq<u8>, name: Seq<char>) -> Result<Seq<u8>, Seq<char>> {
    match find_from(t, name, 0) {
        Some(i) => Ok(t.update(i as int * 45 + 44, ENTRY_UNUSED)),
        None => Err("Entrada no encontrada"@),
    }
}

/// The refusal for an unmounted file system starts with `M`; the file system's other
/// errors do not.
proof fn lemma_error_texts()
    ensures
        "MesaFS no inicializado"@[0] == 'M',
        "La entrada ya existe"@[0] == 'L',
        "Entrada no encontrada"@[0] == 'E',
        "El archivo ya existe"@[0] == 'E',
        "No hay suficiente espacio libre"@[0] == 'N',
        "Tabla de entradas llena"@[0] == 'T',
        "Error leyendo tabla de entradas"@[0] == 'E',
        "Error escribiendo tabla de entradas"@[0] == 'E',
        "Error leyendo cabecera"@[0] == 'E',
        "Error actualizando cabecera"@[0] == 'E',
        "Error escribiendo datos del archivo"@[0] == 'E',
{
    reveal_strlit("MesaFS no inicializado");
    reveal_strlit("La entrada ya existe");
    reveal_strlit("Entrada no encontrada");
    reveal_strlit("El archivo ya existe");
    reveal_strlit("No hay suficiente espacio libre");
    reveal_strlit("Tabla de entradas llena");
    reveal_strlit("Error leyendo tabla de entradas");
    reveal_strlit("Error escribiendo tabla de entradas");
    reveal_strlit("Error leyendo cabecera");
    reveal_strlit("Error actualizando cabecera");
    reveal_strlit("Error escribiendo datos del archivo");
}

/// The errors a device can cause once a table change is planned.
pub open spec fn device_error(e: Seq<char>) -> bool {
    e == "Error leyendo tabla de entradas"@ || e == "Error escribiendo tabla de entradas"@
        || e == "Error leyendo cabecera"@ || e == "Error actualizando cabecera"@
}

/// Creates a directory entry named after the last component of `name`.
pub fn mesa_fs_mkdir<D: BlockDevice>(dev: &mut D, state: &MesaFsState, name: &str) -> (res: Result<(), &'static str>)
    requires
        state.wf(),
    ensures
        !state.initialized ==> (res matches Err(e) && e@ == "MesaFS no inicializado"@) && *final(dev) == *old(dev),
        (res matches Err(e) && e@ == "MesaFS no inicializado"@) ==> !state.initialized,
        state.initialized ==> ({
            let base = state.free_start_lba as int;
            let h = old(dev).sector(base);
            match mkdir_plan(old(dev).sector(base + 1), name) {
                Err(m) => *final(dev) == *old(dev) && (res matches Err(e)
                    && (e@ == m || e@ == "Error leyendo tabla de entradas"@)),
                Ok(nt) => match res {
                    Ok(()) => h.len() == SECTOR_SIZE && le32(h, 12) < 0xFFFF_FFFF && two_written(*final(dev), *old(dev),
                        base + 1, nt, base, with_le32(h, 12, (le32(h, 12) + 1) as u32)),
                    Err(e) => device_error(e@),
                },
            }
        }),
{
    proof {
        lemma_error_texts();
    }
    if !state.initialized {
        return Err("MesaFS no inicializado");
    }
    let ghost d0 = *dev;
    let base = state.free_start_lba;
    let t = match read_sector(dev, state.free_start_lba + 1) {
        Some(t) => t,
        None => return Err("Error leyendo tabla de entradas"),
    };
    let nt = match plan_mkdir(t.as_slice(), name) {
        Ok(nt) => nt,
        Err(e) => return Err(e),
    };
    if dev.write(state.free_start_lba + 1, 1, nt.as_slice()).is_err() {
        return Err("Error escribiendo tabla de entradas");
    }
    assert(nt@.subrange(0, 512) =~= nt@);
    let ghost d1 = *dev;
    assert(d1.sector(base as int) == d0.sector(base as int));
    let h = match read_sector(dev, state.free_start_lba) {
        Some(h) => h,
        None => return Err("Error leyendo cabecera"),
    };
    let nh = match bump_file_count(h.as_slice()) {
        Some(nh) => nh,
        None => return Err("Error actualizando cabecera"),
    };
    if dev.write(state.free_start_lba, 1, nh.as_slice()).is_err() {
        return Err("Error actualizando cabecera");
    }
    proof {
        assert(nh@.subrange(0, 512) =~= nh@);
        assert forall|l: int| #[trigger] dev.sector(l) == (if l == base + 1 { nt@ } else if l == base { nh@ }
            else { d0.sector(l) }) by {
            assert(dev.sector(l) == if l == base { nh@.subrange(0, 512) } else { d1.sector(l) });
        }
    }
    Ok(())
}

/// Removes the first entry named `name`, and lowers the file count if it is not zero.
pub fn mesa_fs_remove<D: BlockDevice>(dev: &mut D, state: &MesaFsState, name: &str) -> (res: Result<(), &'static str>)
    requires
        state.wf(),
    ensures
        !state.initialized ==> (res matches Err(e) && e@ == "MesaFS no inicializado"@) && *final(dev) == *old(dev),
        (res matches Err(e) && e@ == "MesaFS no inicializado"@) ==> !state.initialized,
        state.initialized ==> ({
            let base = state.free_start_lba as int;
            let h = old(dev).sector(base);
            match remove_plan(old(dev).sector(base + 1), name@) {
                Err(m) => *final(dev) == *old(dev) && (res matches Err(e)
                    && (e@ == m || e@ == "Error leyendo tabla de entradas"@)),
                Ok(nt) => match res {
                    Ok(()) => h.len() == SECTOR_SIZE && if le32(h, 12) > 0 {
                        two_written(*final(dev), *old(dev), base + 1, nt, base, with_le32(h, 12, (le32(h, 12) - 1) as u32))
                    } else {
                        one_written(*final(dev), *old(dev), base + 1, nt)
                    },
                    Err(e) => device_error(e@),
                },
            }
        }),
{
    proof {
        lemma_error_texts();
    }
    if !state.initialized {
        return Err("MesaFS no inicializado");
    }
    let ghost d0 = *dev;
    let base = state.free_start_lba;
    let t = match read_sector(dev, state.free_start_lba + 1) {
        Some(t) => t,
        None => return Err("Error leyendo tabla de entradas"),
    };
    let nt = match plan_remove(t.as_slice(), name) {
        Ok(nt) => nt,
        Err(e) => return Err(e),
    };
    if dev.write(state.free_start_lba + 1, 1, nt.as_slice()).is_err() {
        return Err("Error escribiendo tabla de entradas");
    }
    assert(nt@.subrange(0, 512) =~= nt@);
    let ghost d1 = *dev;
    assert(d1.sector(base as int) == d0.sector(base as int));
    let h = match read_sector(dev, state.free_start_lba) {
        Some(h) => h,
        None => return Err("Error leyendo cabecera"),
    };
    if let Some(nh) = drop_file_count(h.as_slice()) {
        if dev.write(state.free_start_lba, 1, nh.as_slice()).is_err() {
            return Err("Error actualizando cabecera");
        }
        proof {
            assert(nh@.subrange(0, 512) =~= nh@);
            assert forall|l: int| #[trigger] dev.sector(l) == (if l == base + 1 { nt@ } else if l == base { nh@ }
                else { d0.sector(l) }) by {
                assert(dev.sector(l) == if l == base { nh@.subrange(0, 512) } else { d1.sector(l) });
            }
        }
    }
    Ok(())
}


#[verifier::spinoff_prover]
proof fn lemma_gpt_parts_ok(s: Seq<u8>, per: nat, size: nat, ei: nat)
    ensures
        forall|q: int| 0 <= q < gpt_parts(s, per, size, ei).0.len() ==> {
            let x = #[trigger] gpt_parts(s, per, size, ei).0[q];
            x.0 <= x.1 && x.1 - x.0 < u64::MAX && x.0 + 0x1_0000_0000 <= u64::MAX
        },
    decreases per - ei,
{
    if ei >= per || ei * size + 16 > 512 {
    } else if guid_is_zero(s, (ei * size) as int) {
        lemma_gpt_parts_ok(s, per, size, ei + 1);
    } else if !gpt_entry_ok(s, (ei * size) as int) {
    } else {
        lemma_gpt_parts_ok(s, per, size, ei + 1);
        let rest = gpt_parts(s, per, size, ei + 1);
        let all = gpt_parts(s, per, size, ei).0;
        assert forall|q: int| 0 <= q < all.len() implies {
            let x = #[trigger] all[q];
            x.0 <= x.1 && x.1 - x.0 < u64::MAX && x.0 + 0x1_0000_0000 <= u64::MAX
        } by {
            if q > 0 {
                assert(all[q] == rest.0[q - 1]);
            }
        }
    }
}

/// The partitions listed in the first `m` sectors of the entry array at `lba`, in order.
pub open spec fn scan_list<D: BlockDevice>(dev: D, lba: int, per: nat, size: nat, m: nat) -> Seq<(u64, u64)>
    decreases m,
{
    if m == 0 {
        Seq::empty()
    } else {
        scan_list(dev, lba, per, size, (m - 1) as nat) + gpt_parts(dev.sector(lba + m - 1), per, size, 0).0
    }
}

/// `parts` is what a scan of the GPT at sector 1 saw: the partitions listed in the first
/// `m` (at most 32) sectors of the entry array, in order, every sector before the `m`-th
/// listing its entries completely.
pub open spec fn gpt_scan<D: BlockDevice>(dev: D, parts: Seq<(u64, u64)>) -> bool {
    let h = dev.sector(1);
    let size = le32(h, 84);
    let lba = le64(h, 72);
    is_gpt_header(h) && 1 <= size <= 512 && exists|m: nat| #![trigger scan_list(dev, lba as int, 512nat / (size as nat), size as nat, m)]
        m <= 32
        && (forall|s: nat| s + 1 < m ==> #[trigger] gpt_parts(dev.sector((lba + s) as int), 512nat / (size as nat), size as nat, 0).1)
        && scan_list(dev, lba as int, 512nat / (size as nat), size as nat, m) == parts
        && (dev.readable(1) ==> scan_stopped(dev, lba as int, 512nat / (size as nat), size as nat, scan_count(le32(h, 80), size), m))
}

/// The number of sectors of entries the scan reads at most: as many as the entries fill,
/// up to 32.
pub open spec fn scan_count(num: nat, size: nat) -> nat {
    let per = 512nat / size;
    let t = ((num + per - 1) / (per as int)) as nat;
    if t < 32 { t } else { 32 }
}

/// Why a scan of the entry array ended after `m` sectors: it read them all, the next
/// sector's address passes 64 bits or it cannot be read, or the last one read was not
/// listed completely.
pub open spec fn scan_stopped<D: BlockDevice>(dev: D, lba: int, per: nat, size: nat, nsec: nat, m: nat) -> bool {
    ||| m == nsec
    ||| lba + m > u64::MAX
    ||| !dev.readable(lba + m)
    ||| (m > 0 && !gpt_parts(dev.sector(lba + m - 1), per, size, 0).1)
}

/// `firsts[j]` is what reading the first sector of partition `j` gave (`None`: the read
/// failed), for the first `firsts.len()` partitions.
/// The reading stops only at a first sector that holds the magic, and a sector that can
/// be read is.
pub open spec fn firsts_read<D: BlockDevice>(dev: D, parts: Seq<(u64, u64)>, firsts: Seq<Option<Seq<u8>>>) -> bool {
    &&& firsts.len() <= parts.len()
    &&& forall|j: int| 0 <= j < firsts.len() ==>
        (#[trigger] firsts[j] matches Some(x) ==> x == dev.sector(parts[j].0 as int))
    &&& forall|j: int| 0 <= j < firsts.len() ==> dev.readable(parts[j].0 as int) ==> (#[trigger] firsts[j]) is Some
    &&& (firsts.len() == parts.len() || (firsts.len() > 0 && read_magic(firsts.last())))
}

/// What mounting does.
#[derive(Debug, Clone, Copy, PartialEq, Eq, Structural)]
pub enum InitPlan {
    /// Mount the partition at this index of the scan.
    Mount(usize),
    /// Format the partition with this first and last sector.
    Format(u64, u64),
    /// Neither: no partition, or not every first sector was looked at.
    Nothing,
}

/// Whether a first sector that was read holds the MesaFS magic.
pub open spec fn read_magic(f: Option<Seq<u8>>) -> bool {
    f matches Some(x) && has_magic(x)
}

/// The first index from `i` on whose first sector holds the magic.
pub open spec fn magic_from(firsts: Seq<Option<Seq<u8>>>, i: nat) -> Option<nat>
    decreases firsts.len() - i,
{
    if i >= firsts.len() {
        None
    } else if read_magic(firsts[i as int]) {
        Some(i)
    } else {
        magic_from(firsts, i + 1)
    }
}

/// The decision: the first partition whose first sector holds the magic is mounted; when
/// every partition's first sector was looked at and none does, the last one is formatted.
pub open spec fn spec_init_plan(parts: Seq<(u64, u64)>, firsts: Seq<Option<Seq<u8>>>) -> InitPlan {
    match magic_from(firsts, 0) {
        Some(i) => InitPlan::Mount(i as usize),
        None => if firsts.len() == parts.len() && parts.len() > 0 {
            InitPlan::Format(parts.last().0, parts.last().1)
        } else {
            InitPlan::Nothing
        },
    }
}

pub open spec fn opt_view(f: Option<Vec<u8>>) -> Option<Seq<u8>> {
    match f {
        Some(v) => Some(v@),
        None => None,
    }
}

pub open spec fn firsts_view(v: Seq<Option<Vec<u8>>>) -> Seq<Option<Seq<u8>>> {
    Seq::new(v.len(), |j: int| opt_view(v[j]))
}

proof fn lemma_magic_from(firsts: Seq<Option<Seq<u8>>>, i: nat)
    ensures
        match magic_from(firsts, i) {
            Some(j) => i <= j < firsts.len() && read_magic(firsts[j as int])
                && forall|k: int| i <= k < j ==> !read_magic(#[trigger] firsts[k]),
            None => forall|k: int| i <= k < firsts.len() ==> !read_magic(#[trigger] firsts[k]),
        },
    decreases firsts.len() - i,
{
    if i < firsts.len() && !read_magic(firsts[i as int]) {
        lemma_magic_from(firsts, i + 1);
    }
}

/// Decides what mounting does from the partitions the scan listed and the first sectors
/// read from them, in order.
pub fn plan_mesa_fs_init(parts: &[(u64, u64)], firsts: &[Option<Vec<u8>>]) -> (res: InitPlan)
    ensures
        res == spec_init_plan(parts@, firsts_view(firsts@)),
{
    let ghost fv = firsts_view(firsts@);
    let mut i: usize = 0;
    while i < firsts.len()
        invariant
            i <= firsts@.len(),
            fv == firsts_view(firsts@),
            magic_from(fv, 0) == magic_from(fv, i as nat),
        decreases firsts@.len() - i,
    {
        let hit = match &firsts[i] {
            Some(x) => check_magic(x.as_slice()),
            None => false,
        };
        assert(fv[i as int] == opt_view(firsts@[i as int]));
        if hit {
            return InitPlan::Mount(i);
        }
        i = i + 1;
    }
    if firsts.len() == parts.len() && parts.len() > 0 {
        let (start, end) = parts[parts.len() - 1];
        InitPlan::Format(start, end)
    } else {
        InitPlan::Nothing
    }
}

/// The header with its size field set to the partition's size, when the field is zero.
pub open spec fn spec_header_fix(first: Seq<u8>, total: u64) -> Option<Seq<u8>> {
    if le64(first, 16) == 0 { Some(with_le32(with_le64(first, 16, total), 12, le32(first, 12) as u32)) } else { None }
}

/// The header repair of a mounted partition: a zero size field is set to `total` (the
/// file count is rewritten as it was).
pub fn header_fix(first: &[u8], total: u64) -> (res: Option<Vec<u8>>)
    requires
        first@.len() == SECTOR_SIZE,
    ensures
        opt_view(res) == spec_header_fix(first@, total),
{
    if get_le64(first, 16) == 0 {
        Some(fix_header_total(first, total))
    } else {
        None
    }
}

/// What the table check of a mounted partition does.
#[derive(Debug, Clone, PartialEq, Eq)]
pub enum TableFix {
    /// The table is consistent with the header.
    Keep,
    /// The table is empty but the header counts files: this header, with a zero count, is
    /// written back.
    ClearCount(Vec<u8>),
    /// The table could not be read: an empty table is written.
    ZeroTable,
}

/// The table check: `header` is the (repaired) header, `table` the table's sector as read.
pub fn table_fix(header: &[u8], table: Option<&[u8]>) -> (res: TableFix)
    requires
        header@.len() == SECTOR_SIZE,
    ensures
        table is None ==> res == TableFix::ZeroTable,
        table matches Some(t) ==> {
            let empty = forall|k: int| 0 <= k < t@.len() ==> t@[k] == 0;
            if !empty || le32(header@, 12) == 0 {
                res == TableFix::Keep
            } else {
                res matches TableFix::ClearCount(h) && h@ == with_le32(header@, 12, 0)
            }
        },
{
    match table {
        None => TableFix::ZeroTable,
        Some(t) => {
            let has_entries = any_nonzero(t);
            if has_entries || get_le32(header, 12) == 0 {
                TableFix::Keep
            } else {
                let mut fixed = copy_bytes(header);
                set_le32(&mut fixed, 12, 0);
                TableFix::ClearCount(fixed)
            }
        },
    }
}

/// Mounts the partition `(start, end)` whose first sector `first` holds the MesaFS magic,
/// after the repairs of `header_fix` and `table_fix`. It stays unmounted when the table
/// could not be read and writing an empty one failed.
fn mount_partition<D: BlockDevice>(dev: &mut D, state: &mut MesaFsState, start: u64, end: u64, first: &[u8])
    requires
        old(state).wf(),
        first@.len() == SECTOR_SIZE,
        start <= end,
        end - start < u64::MAX,
        start + 0x1_0000_0000 <= u64::MAX,
    ensures
        final(state).wf(),
        *final(state) == *old(state) || (final(state).initialized && final(state).free_start_lba == start
            && final(state).free_sectors == end - start + 1),
        spec_header_fix(first@, (end - start + 1) as u64) is None && old(dev).readable(start + 1) ==> (final(state).initialized
            && final(state).free_start_lba == start && final(state).free_sectors == end - start + 1),
{
    let gpt_total = end - start + 1;
    let header = match header_fix(first, gpt_total) {
        Some(h) => {
            let _ = dev.write(start, 1, h.as_slice());
            h
        },
        None => copy_bytes(first),
    };
    let table = read_sector(dev, start + 1);
    let fix = match &table {
        Some(t) => table_fix(header.as_slice(), Some(t.as_slice())),
        None => table_fix(header.as_slice(), None),
    };
    let entries_ok = match fix {
        TableFix::Keep => true,
        TableFix::ClearCount(h) => {
            let _ = dev.write(start, 1, h.as_slice());
            true
        },
        TableFix::ZeroTable => {
            let empty = zeros(SECTOR_SIZE);
            dev.write(start + 1, 1, empty.as_slice()).is_ok()
        },
    };
    if entries_ok {
        state.free_start_lba = start;
        state.free_sectors = gpt_total;
        state.initialized = true;
    }
}

/// What `mesa_fs_init` did, for a scan that saw `parts` and read the first sectors
/// `firsts`: the outcome of `spec_init_plan`.
pub open spec fn init_outcome<D: BlockDevice>(before: D, after: D, s0: MesaFsState, s1: MesaFsState, res: bool,
    parts: Seq<(u64, u64)>, firsts: Seq<Option<Seq<u8>>>) -> bool {
    &&& gpt_scan(before, parts)
    &&& firsts_read(before, parts, firsts)
    &&& match spec_init_plan(parts, firsts) {
        InitPlan::Mount(k) => !res && (s1 == s0 || (s1.initialized && s1.free_start_lba == parts[k as int].0
            && s1.free_sectors == parts[k as int].1 - parts[k as int].0 + 1))
            && (spec_header_fix(firsts[k as int]->0, (parts[k as int].1 - parts[k as int].0 + 1) as u64) is None
                && before.readable(parts[k as int].0 + 1) ==> s1.initialized && s1.free_start_lba == parts[k as int].0),
        InitPlan::Format(start, end) => start <= end
            && (res ==> s1.initialized && s1.free_start_lba == start && s1.free_sectors == end - start + 1
                && two_written(after, before, start as int, header_bytes((end - start + 1) as u64), start + 1,
                    Seq::new(512, |k: int| 0u8)))
            && (!res ==> s1 == s0),
        InitPlan::Nothing => !res && s1 == s0 && after == before,
    }
}

/// Mounts MesaFS from the GPT of the device. The partitions listed in the entry array
/// (at most 32 sectors of it) are scanned in order and their first sectors read until
/// one holds a MesaFS header: that partition is mounted after repairs, and the result is
/// `false`. When none does, the last partition listed is formatted and mounted (`true`).
/// Nothing is mounted and the result is `false` when there is no GPT or no partition,
/// or a write fails.
///
/// A GPT whose entry size leaves no whole entry in a sector, or an entry in use whose
/// extent runs backwards or past 64-bit sector numbers, ends the scan as an unreadable
/// sector does; a first sector that cannot be read counts as one without the header.
#[verifier::spinoff_prover]
pub fn mesa_fs_init<D: BlockDevice>(dev: &mut D, state: &mut MesaFsState) -> (res: bool)
    requires
        old(state).wf(),
    ensures
        final(state).wf(),
        res ==> final(state).initialized,
        *final(state) != *old(state) ==> final(state).initialized && final(state).free_sectors >= 1,
        !is_gpt_header(old(dev).sector(1)) ==> !res && *final(state) == *old(state) && *final(dev) == *old(dev),
        is_gpt_header(old(dev).sector(1)) && 1 <= le32(old(dev).sector(1), 84) <= 512 ==> exists|parts: Seq<(u64, u64)>,
            firsts: Seq<Option<Seq<u8>>>| #[trigger] init_outcome(*old(dev), *final(dev), *old(state), *final(state), res, parts, firsts),
        res ==> exists|parts: Seq<(u64, u64)>, firsts: Seq<Option<Seq<u8>>>|
            #[trigger] init_outcome(*old(dev), *final(dev), *old(state), *final(state), res, parts, firsts)
            && firsts.len() == parts.len() && parts.len() > 0
            && (forall|j: int| 0 <= j < parts.len() ==> !read_magic(#[trigger] firsts[j]))
            && final(state).free_start_lba == parts.last().0,
        !res && *final(state) != *old(state) ==> exists|parts: Seq<(u64, u64)>, firsts: Seq<Option<Seq<u8>>>, k: int|
            #![trigger init_outcome(*old(dev), *final(dev), *old(state), *final(state), res, parts, firsts), firsts[k]]
            init_outcome(*old(dev), *final(dev), *old(state), *final(state), res, parts, firsts)
            && 0 <= k < firsts.len() && read_magic(firsts[k])
            && (forall|j: int| 0 <= j < k ==> !read_magic(#[trigger] firsts[j]))
            && final(state).free_start_lba == parts[k].0 && final(state).free_sectors == parts[k].1 - parts[k].0 + 1,
{
    let header = match read_sector(dev, 1) {
        Some(h) => h,
        None => {
            proof {
                let e: Seq<(u64, u64)> = Seq::empty();
                let h = dev.sector(1);
                if is_gpt_header(h) && 1 <= le32(h, 84) <= 512 {
                    assert(scan_list(*dev, le64(h, 72) as int, 512nat / (le32(h, 84) as nat), le32(h, 84) as nat, 0) == e);
                    assert(gpt_scan(*dev, e));
                    assert(init_outcome(*dev, *dev, *state, *state, false, e, Seq::empty()));
                }
            }
            return false;
        },
    };
    let (lba, num, size) = match gpt_table_location(header.as_slice()) {
        Some(x) => x,
        None => return false,
    };
    let (per, nsec) = match gpt_scan_plan(num, size) {
        Some(x) => x,
        None => return false,
    };
    let ghost s0 = *state;
    let ghost d0 = *dev;
    let mut parts: Vec<(u64, u64)> = Vec::new();
    let mut sec: usize = 0;
    let ghost mut m: nat = 0;
    while sec < nsec
        invariant_except_break
            m == sec,
            forall|s: nat| s < m ==> #[trigger] gpt_parts(d0.sector(lba + s), per as nat, size as nat, 0).1,
        invariant
            1 <= size <= 512,
            per == 512nat / (size as nat),
            *state == s0,
            *dev == d0,
            is_gpt_header(d0.sector(1)),
            lba == le64(d0.sector(1), 72),
            size == le32(d0.sector(1), 84),
            nsec <= 32,
            m <= nsec,
            parts@ == scan_list(d0, lba as int, per as nat, size as nat, m),
            forall|q: int| 0 <= q < parts@.len() ==> (#[trigger] parts@[q]).0 <= parts@[q].1
                && parts@[q].1 - parts@[q].0 < u64::MAX && parts@[q].0 + 0x1_0000_0000 <= u64::MAX,
            forall|s: nat| s + 1 < m ==> #[trigger] gpt_parts(d0.sector(lba + s), per as nat, size as nat, 0).1,
        ensures
            scan_stopped(d0, lba as int, per as nat, size as nat, nsec as nat, m),
        decreases nsec - sec,
    {
        if lba > u64::MAX - sec as u64 {
            break;
        }
        let buf = match read_sector(dev, lba + sec as u64) {
            Some(b) => b,
            None => break,
        };
        let (found, complete) = gpt_partitions(buf.as_slice(), per, size);
        proof {
            lemma_gpt_parts_ok(buf@, per as nat, size as nat, 0);
        }
        let ghost before = parts@;
        let mut p: usize = 0;
        while p < found.len()
            invariant
                (found@, complete) == gpt_parts(buf@, per as nat, size as nat, 0),
                forall|q: int| 0 <= q < gpt_parts(buf@, per as nat, size as nat, 0).0.len() ==> {
                    let x = #[trigger] gpt_parts(buf@, per as nat, size as nat, 0).0[q];
                    x.0 <= x.1 && x.1 - x.0 < u64::MAX && x.0 + 0x1_0000_0000 <= u64::MAX
                },
                forall|q: int| 0 <= q < parts@.len() ==> (#[trigger] parts@[q]).0 <= parts@[q].1
                    && parts@[q].1 - parts@[q].0 < u64::MAX && parts@[q].0 + 0x1_0000_0000 <= u64::MAX,
                p <= found@.len(),
                parts@ == before + found@.subrange(0, p as int),
            decreases found@.len() - p,
        {
            assert(found@[p as int] == gpt_parts(buf@, per as nat, size as nat, 0).0[p as int]);
            parts.push(found[p]);
            assert(before + found@.subrange(0, p + 1) =~= (before + found@.subrange(0, p as int)).push(found@[p as int]));
            p = p + 1;
        }
        proof {
            assert(found@.subrange(0, found@.len() as int) =~= found@);
            assert(scan_list(d0, lba as int, per as nat, size as nat, m + 1) == before + found@);
            m = m + 1;
        }
        if !complete {
            break;
        }
        sec = sec + 1;
    }
    proof {
        assert(per as nat == 512nat / (le32(d0.sector(1), 84) as nat));
        assert(gpt_scan(d0, parts@));
    }
    let mut firsts: Vec<Option<Vec<u8>>> = Vec::new();
    let mut i: usize = 0;
    while i < parts.len()
        invariant_except_break
            firsts@.len() == i,
        invariant
            *dev == d0,
            *state == s0,
            i <= parts@.len(),
            firsts@.len() <= parts@.len(),
            firsts@.len() == i || (firsts@.len() == i + 1 && read_magic(opt_view(firsts@[i as int]))),
            forall|j: int| 0 <= j < firsts@.len() ==>
                (#[trigger] firsts@[j] matches Some(x) ==> x@ == d0.sector(parts@[j].0 as int)),
            forall|j: int| 0 <= j < firsts@.len() ==> d0.readable(parts@[j].0 as int) ==> (#[trigger] firsts@[j]) is Some,
            forall|j: int| 0 <= j < firsts@.len() ==> (#[trigger] firsts@[j] matches Some(x) ==> x@.len() == SECTOR_SIZE),
            forall|j: int| 0 <= j < i ==> !read_magic(#[trigger] opt_view(firsts@[j])),
        ensures
            firsts@.len() == parts@.len() || (firsts@.len() == i + 1 && read_magic(opt_view(firsts@[i as int]))),
            forall|j: int| 0 <= j < firsts@.len() ==>
                (#[trigger] firsts@[j] matches Some(x) ==> x@ == d0.sector(parts@[j].0 as int)),
            forall|j: int| 0 <= j < firsts@.len() ==> d0.readable(parts@[j].0 as int) ==> (#[trigger] firsts@[j]) is Some,
            firsts@.len() <= parts@.len(),
            forall|j: int| 0 <= j < firsts@.len() ==> (#[trigger] firsts@[j] matches Some(x) ==> x@.len() == SECTOR_SIZE),
        decreases parts@.len() - i,
    {
        let f = read_sector(dev, parts[i].0);
        let hit = match &f {
            Some(x) => check_magic(x.as_slice()),
            None => false,
        };
        firsts.push(f);
        if hit {
            break;
        }
        i = i + 1;
    }
    let ghost fv = firsts_view(firsts@);
    proof {
        lemma_magic_from(fv, 0);
        assert forall|j: int| 0 <= j < fv.len() implies fv[j] == opt_view(firsts@[j]) by {}
        assert(firsts_read(d0, parts@, fv));
    }
    match plan_mesa_fs_init(parts.as_slice(), firsts.as_slice()) {
        InitPlan::Mount(k) => {
            let (start, end) = parts[k];
            assert(parts@[k as int] == (start, end));
            let first = match &firsts[k] {
                Some(x) => copy_bytes(x.as_slice()),
                None => return false,
            };
            mount_partition(dev, state, start, end, first.as_slice());
            proof {
                assert(init_outcome(d0, *dev, s0, *state, false, parts@, fv));
            }
            false
        },
        InitPlan::Format(start, end) => {
            proof {
                assert(parts@.last() == parts@[parts@.len() - 1]);
            }
            let sectors = end - start + 1;
            let h = format_header(sectors);
            if dev.write(start, 1, h.as_slice()).is_err() {
                assert(init_outcome(d0, *dev, s0, *state, false, parts@, fv));
                return false;
            }
            let ghost d1 = *dev;
            let empty = zeros(SECTOR_SIZE);
            if dev.write(start + 1, 1, empty.as_slice()).is_err() {
                assert(init_outcome(d0, *dev, s0, *state, false, parts@, fv));
                return false;
            }
            proof {
                assert(h@.subrange(0, 512) =~= h@);
                assert(empty@.subrange(0, 512) =~= Seq::new(512, |k: int| 0u8));
                assert forall|l: int| #[trigger] dev.sector(l) == (if l == start { header_bytes(sectors) }
                    else if l == start + 1 { Seq::new(512, |k: int| 0u8) } else { d0.sector(l) }) by {
                    assert(d1.sector(l) == if l == start { h@.subrange(0, 512) } else { d0.sector(l) });
                }
            }
            state.free_start_lba = start;
            state.free_sectors = sectors;
            state.initialized = true;
            proof {
                assert(init_outcome(d0, *dev, s0, *state, true, parts@, fv));
            }
            true
        },
        InitPlan::Nothing => {
            assert(init_outcome(d0, *dev, s0, *state, false, parts@, fv));
            false
        },
    }
}


// ---------------------------------------------------------------------------
// Laws.

proof fn lemma_with_entry(t: Seq<u8>, i: int, name: Seq<u8>, start: u32, sectors: u32, size: u32, kind: u8)
    requires
        t.len() == SECTOR_SIZE,
        0 <= i < ENTRIES_PER_SECTOR,
        name.len() == 32,
    ensures
        with_entry(t, i, name, start, sectors, size, kind).len() == SECTOR_SIZE,
        forall|k: int| 0 <= k < SECTOR_SIZE && !(i * 45 <= k < i * 45 + 45) ==> #[trigger] with_entry(t, i, name, start,
            sectors, size, kind)[k] == t[k],
        with_entry(t, i, name, start, sectors, size, kind).subrange(i * 45, i * 45 + 32) == name,
        entry_kind(with_entry(t, i, name, start, sectors, size, kind), i) == kind,
        entry_start(with_entry(t, i, name, start, sectors, size, kind), i) == start,
        entry_sectors(with_entry(t, i, name, start, sectors, size, kind), i) == sectors,
        entry_bytes(with_entry(t, i, name, start, sectors, size, kind), i) == size,
{
    let off = i * 45;
    let named = Seq::new(t.len(), |k: int| if off <= k < off + 32 { name[k - off] } else { t[k] });
    let w1 = with_le32(named, off + 32, start);
    crate::bytes::lemma_le32_roundtrip(named, off + 32, start);
    let w2 = with_le32(w1, off + 36, sectors);
    crate::bytes::lemma_le32_roundtrip(w1, off + 36, sectors);
    let w3 = with_le32(w2, off + 40, size);
    crate::bytes::lemma_le32_roundtrip(w2, off + 40, size);
    let nt = w3.update(off + 44, kind);
    assert(nt == with_entry(t, i, name, start, sectors, size, kind));
    assert(le32(nt, off + 32) == le32(w1, off + 32)) by {
        assert(nt[off + 32] == w1[off + 32] && nt[off + 33] == w1[off + 33] && nt[off + 34] == w1[off + 34]
            && nt[off + 35] == w1[off + 35]);
    }
    assert(le32(nt, off + 36) == le32(w2, off + 36)) by {
        assert(nt[off + 36] == w2[off + 36] && nt[off + 37] == w2[off + 37] && nt[off + 38] == w2[off + 38]
            && nt[off + 39] == w2[off + 39]);
    }
    assert(le32(nt, off + 40) == le32(w3, off + 40)) by {
        assert(nt[off + 40] == w3[off + 40] && nt[off + 41] == w3[off + 41] && nt[off + 42] == w3[off + 42]
            && nt[off + 43] == w3[off + 43]);
    }
    assert(nt.subrange(off, off + 32) =~= name);
}

proof fn lemma_name_field_raw(b: Seq<u8>)
    requires
        b.len() <= 31,
        forall|k: int| 0 <= k < b.len() ==> b[k] != 0,
    ensures
        name_field(b).subrange(0, zero_pos(name_field(b), 0) as int) == b,
{
    let f = name_field(b);
    lemma_zero_pos(f, 0);
    let z = zero_pos(f, 0);
    assert(f[b.len() as int] == 0);
    if z < b.len() {
        assert(f[z as int] == b[z as int]);
    }
    assert(z == b.len());
    assert(f.subrange(0, z as int) =~= b);
}

proof fn lemma_find_after_slot(t: Seq<u8>, nt: Seq<u8>, name: Seq<char>, i: nat, j: nat)
    requires
        t.len() == SECTOR_SIZE,
        nt.len() == SECTOR_SIZE,
        j <= i < ENTRIES_PER_SECTOR,
        slot_from(t, name, j) == Slot::Free(i as usize),
        forall|k: int| 0 <= k < i * 45 ==> nt[k] == t[k],
        entry_kind(nt, i as int) != ENTRY_UNUSED,
        entry_name(nt, i as int) == name,
    ensures
        find_from(nt, name, j) == Some(i),
    decreases i - j,
{
    if j < i {
        assert(entry_kind(nt, j as int) == entry_kind(t, j as int));
        assert(raw_name(nt, j as int) == raw_name(t, j as int)) by {
            assert(nt.subrange(j as int * 45, j as int * 45 + 32) =~= t.subrange(j as int * 45, j as int * 45 + 32));
        }
        lemma_find_after_slot(t, nt, name, i, j + 1);
    }
}

/// A file written under a name of at most 31 bytes (none of them zero) is found again by
/// that name, in the slot it was given, with the extent and size written; the rest of
/// the table is unchanged.
pub proof fn law_written_file_is_found(t: Seq<u8>, name: &str, start: u32, sectors: u32, size: u32)
    requires
        t.len() == SECTOR_SIZE,
        slot_from(t, name@, 0) is Free,
        name.spec_bytes().len() <= 31,
        forall|k: int| 0 <= k < name.spec_bytes().len() ==> name.spec_bytes()[k] != 0,
    ensures
        ({
            let i = slot_from(t, name@, 0)->Free_0;
            let nt = with_entry(t, i as int, name_field(name.spec_bytes()), start, sectors, size, ENTRY_FILE);
            &&& find_from(nt, name@, 0) == Some(i as nat)
            &&& entry_kind(nt, i as int) == ENTRY_FILE
            &&& entry_start(nt, i as int) == start
            &&& entry_sectors(nt, i as int) == sectors
            &&& entry_bytes(nt, i as int) == size
            &&& forall|k: int| 0 <= k < SECTOR_SIZE && !(i * 45 <= k < i * 45 + 45) ==> nt[k] == t[k]
        }),
{
    let i = slot_from(t, name@, 0)->Free_0;
    lemma_slot_range(t, name@, 0);
    let b = name.spec_bytes();
    let f = name_field(b);
    let nt = with_entry(t, i as int, f, start, sectors, size, ENTRY_FILE);
    lemma_with_entry(t, i as int, f, start, sectors, size, ENTRY_FILE);
    lemma_name_field_raw(b);
    assert(raw_name(nt, i as int) == b);
    vstd::utf8::encode_utf8_valid_utf8(name@);
    vstd::utf8::encode_utf8_decode_utf8(name@);
    assert(entry_name(nt, i as int) == name@);
    lemma_find_after_slot(t, nt, name@, i as nat, 0);
}

/// A file is read back as it was written: when `mesa_fs_write_file` has stored `data`
/// under a name of at most 31 bytes (none of them zero), and the data takes at most
/// 65535 sectors, reading that name from the device gives `data`.
#[verifier::rlimit(100)]
#[verifier::spinoff_prover]
pub proof fn law_read_after_write<D: BlockDevice>(before: D, after: D, base: int, filename: &str, data: Seq<u8>,
    free_sectors: u64, nh: Seq<u8>)
    requires
        before.sector(base + 1).len() == SECTOR_SIZE,
        write_plan(before.sector(base + 1), filename, data.len(), free_sectors) matches Ok(p)
            && 2 <= p.1 && file_written(after, before, base, p.0, nh, base + p.1, p.2 % 0x1_0000, data),
        filename.spec_bytes().len() <= 31,
        forall|k: int| 0 <= k < filename.spec_bytes().len() ==> filename.spec_bytes()[k] != 0,
        data.len() <= 65535 * 512,
    ensures
        stored_file(after, base, filename@) == Some(data),
{
    let t = before.sector(base + 1);
    let p = write_plan(t, filename, data.len(), free_sectors)->Ok_0;
    let i = slot_from(t, filename@, 0)->Free_0;
    let start = p.1;
    let n = p.2;
    assert(n == sectors_for(data.len()));
    assert(n <= 65535);
    lemma_first_free_range(t, i as nat, 2, if free_sectors < 8190 { free_sectors as nat } else { 8190 });
    law_written_file_is_found(t, filename, start as u32, n as u32, data.len() as u32);
    let nt = after.sector(base + 1);
    assert(nt == p.0);
    assert(find_from(nt, filename@, 0) == Some(i as nat));
    assert(entry_start(nt, i as int) == start);
    assert(entry_sectors(nt, i as int) == n);
    assert(entry_bytes(nt, i as int) == data.len());
    let total = n * 512;
    assert(n % 0x1_0000 == n);
    assert(data.len() <= total) by (nonlinear_arith)
        requires n == (data.len() + 511) / 512, total == n * 512;
    let raw = Seq::new(total, |k: int| if k < (n % 0x1_0000) * 512 { after.sector(base + start + k / 512)[k % 512] } else { 0u8 });
    assert forall|k: int| 0 <= k < data.len() implies #[trigger] raw[k] == data[k] by {
        let j = k / 512;
        assert(0 <= j < n) by (nonlinear_arith)
            requires 0 <= k < data.len(), j == k / 512, n == (data.len() + 511) / 512;
        assert(j * 512 + k % 512 == k) by (nonlinear_arith)
            requires j == k / 512;
        assert(after.sector(base + start + j) == data_sector(data, j));
    }
    assert(raw.subrange(0, data.len() as int) =~= data);
    assert(stored_file(after, base, filename@) == Some(raw.subrange(0, data.len() as int)));
}

proof fn lemma_listed(t: Seq<u8>, n: nat, i: int)
    requires
        0 <= i < n,
        entry_kind(t, i) == ENTRY_FILE,
    ensures
        file_list(t, n).contains((entry_name(t, i), entry_bytes(t, i) as u32, entry_sectors(t, i) as u32)),
        dir_list(t, n).contains((entry_name(t, i), ENTRY_FILE, entry_bytes(t, i) as u32, entry_sectors(t, i) as u32)),
    decreases n,
{
    if i < n - 1 {
        lemma_listed(t, (n - 1) as nat, i);
        let f = file_list(t, (n - 1) as nat);
        let d = dir_list(t, (n - 1) as nat);
        let x = (entry_name(t, i), entry_bytes(t, i) as u32, entry_sectors(t, i) as u32);
        let y = (entry_name(t, i), ENTRY_FILE, entry_bytes(t, i) as u32, entry_sectors(t, i) as u32);
        let j = choose|j: int| 0 <= j < f.len() && f[j] == x;
        let k = choose|k: int| 0 <= k < d.len() && d[k] == y;
        assert(file_list(t, n)[j] == x);
        assert(dir_list(t, n)[k] == y);
    } else {
        assert(file_list(t, n).last() == (entry_name(t, i), entry_bytes(t, i) as u32, entry_sectors(t, i) as u32));
        assert(dir_list(t, n).last() == (entry_name(t, i), ENTRY_FILE, entry_bytes(t, i) as u32, entry_sectors(t, i) as u32));
    }
}

/// A file written is listed with the length it was written with: when
/// `mesa_fs_write_file` has stored `data` under a name of at most 31 bytes (none of them
/// zero), listing the files (and the directory) gives that name with size `data.len()`
/// bytes and `ceil(data.len() / 512)` sectors.
pub proof fn law_listed_after_write<D: BlockDevice>(before: D, after: D, base: int, filename: &str, data: Seq<u8>,
    free_sectors: u64, nh: Seq<u8>)
    requires
        before.sector(base + 1).len() == SECTOR_SIZE,
        write_plan(before.sector(base + 1), filename, data.len(), free_sectors) matches Ok(p)
            && file_written(after, before, base, p.0, nh, base + p.1, p.2 % 0x1_0000, data),
        filename.spec_bytes().len() <= 31,
        forall|k: int| 0 <= k < filename.spec_bytes().len() ==> filename.spec_bytes()[k] != 0,
        data.len() <= 65535 * 512,
    ensures
        file_list(after.sector(base + 1), ENTRIES_PER_SECTOR as nat).contains(
            (filename@, data.len() as u32, ((data.len() + 511) / 512) as u32)),
        dir_list(after.sector(base + 1), ENTRIES_PER_SECTOR as nat).contains(
            (filename@, ENTRY_FILE, data.len() as u32, ((data.len() + 511) / 512) as u32)),
{
    let t = before.sector(base + 1);
    let p = write_plan(t, filename, data.len(), free_sectors)->Ok_0;
    let i = slot_from(t, filename@, 0)->Free_0;
    lemma_slot_range(t, filename@, 0);
    let n = sectors_for(data.len());
    assert(n <= 65535);
    law_written_file_is_found(t, filename, p.1 as u32, n as u32, data.len() as u32);
    let nt = after.sector(base + 1);
    assert(nt == p.0);
    lemma_with_entry(t, i as int, name_field(filename.spec_bytes()), p.1 as u32, n as u32, data.len() as u32, ENTRY_FILE);
    lemma_name_field_raw(filename.spec_bytes());
    assert(raw_name(nt, i as int) == filename.spec_bytes());
    vstd::utf8::encode_utf8_valid_utf8(filename@);
    vstd::utf8::encode_utf8_decode_utf8(filename@);
    assert(entry_name(nt, i as int) == filename@);
    lemma_listed(nt, ENTRIES_PER_SECTOR as nat, i as int);
}

/// The file entries of a directory listing, without their kind, in order.
pub open spec fn files_of(d: Seq<(Seq<char>, u8, u32, u32)>) -> Seq<(Seq<char>, u32, u32)>
    decreases d.len(),
{
    if d.len() == 0 {
        Seq::empty()
    } else {
        let prev = files_of(d.drop_last());
        if d.last().1 == ENTRY_FILE { prev.push((d.last().0, d.last().2, d.last().3)) } else { prev }
    }
}

/// Listing the files of a table gives the entries of kind file of its directory
/// listing, in the same order.
pub proof fn law_files_are_file_entries(t: Seq<u8>, n: nat)
    ensures
        file_list(t, n) == files_of(dir_list(t, n)),
    decreases n,
{
    if n > 0 {
        law_files_are_file_entries(t, (n - 1) as nat);
        let prev = dir_list(t, (n - 1) as nat);
        if entry_kind(t, n - 1) != ENTRY_UNUSED {
            let d = dir_list(t, n);
            assert(d.drop_last() =~= prev);
        }
    }
}

/// Where a file's data is placed: a sector from `s` below the limit that no earlier entry
/// holds, or sector 2 when every sector there is taken.
pub proof fn law_placement_is_free(t: Seq<u8>, n: nat, s: nat, limit: nat)
    ensures
        ({
            let x = first_free(t, n, s, limit);
            (s <= x < limit && !occupied(t, n, x as int))
                || (x == 2 && forall|y: int| s <= y < limit ==> #[trigger] occupied(t, n, y))
        }),
    decreases limit - s,
{
    if s < limit && occupied(t, n, s as int) {
        law_placement_is_free(t, n, s + 1, limit);
        let x = first_free(t, n, s, limit);
        if x == 2 && forall|y: int| s + 1 <= y < limit ==> #[trigger] occupied(t, n, y) {
            assert forall|y: int| s <= y < limit implies #[trigger] occupied(t, n, y) by {
                if y == s {
                }
            }
        }
    }
}

/// Removing an entry marks exactly that entry unused: every other byte of the table
/// stays, and the entry is no longer found under its name at that slot.
pub proof fn law_removed_entry_is_unused(t: Seq<u8>, name: Seq<char>)
    requires
        t.len() == SECTOR_SIZE,
        find_from(t, name, 0) is Some,
    ensures
        ({
            let i = find_from(t, name, 0)->0;
            let nt = t.update(i as int * 45 + 44, ENTRY_UNUSED);
            &&& entry_kind(nt, i as int) == ENTRY_UNUSED
            &&& find_from(nt, name, 0) != Some(i)
            &&& forall|k: int| 0 <= k < SECTOR_SIZE && k != i * 45 + 44 ==> nt[k] == t[k]
        }),
{
    let i = find_from(t, name, 0)->0;
    lemma_find_range(t, name, 0);
    let nt = t.update(i as int * 45 + 44, ENTRY_UNUSED);
    lemma_find_skip(nt, name, 0, i);
}

proof fn lemma_find_skip(t: Seq<u8>, name: Seq<char>, j: nat, i: nat)
    requires
        i < ENTRIES_PER_SECTOR,
        t.len() == SECTOR_SIZE,
        entry_kind(t, i as int) == ENTRY_UNUSED,
    ensures
        find_from(t, name, j) != Some(i),
    decreases ENTRIES_PER_SECTOR - j,
{
    if j < ENTRIES_PER_SECTOR && !(entry_kind(t, j as int) != ENTRY_UNUSED && entry_name(t, j as int) == name) {
        lemma_find_skip(t, name, j + 1, i);
    }
    if j < ENTRIES_PER_SECTOR {
        lemma_find_range(t, name, j);
    }
}

} // verus!
