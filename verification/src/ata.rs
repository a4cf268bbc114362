//! ATA disks in PIO mode: what the IDENTIFY data says of a disk, and reading and writing
//! runs of sectors one sector at a time.
use vstd::prelude::*;
use crate::config::{trim, trim_range};
use crate::text::string_from_chars;

verus! {

/// The size of a sector.
pub const SECTOR_SIZE: usize = 512;

/// What IDENTIFY reports of a disk.
#[derive(Debug, Clone, Copy)]
pub struct DiskInfo {
    pub sectors: u64,
    pub size_mb: u64,
    pub model: [u8; 40],
    pub serial: [u8; 20],
}

/// An ATA string: each 16-bit word holds two characters, high byte first; every byte is
/// taken as the character of that code point.
pub open spec fn ata_chars(b: Seq<u8>) -> Seq<char> {
    Seq::new(b.len() / 2 * 2, |i: int| (if i % 2 == 0 { b[i + 1] } else { b[i - 1] }) as char)
}

fn swapped_chars(b: &[u8]) -> (res: Vec<char>)
    ensures
        res@ == ata_chars(b@),
{
    let mut v: Vec<char> = Vec::new();
    let len = b.len();
    let n = len / 2;
    let mut k: usize = 0;
    while k < n
        invariant
            n == b@.len() / 2,
            len == b@.len(),
            k <= n,
            v@ == ata_chars(b@).subrange(0, 2 * k as int),
        decreases n - k,
    {
        v.push(b[2 * k + 1] as char);
        v.push(b[2 * k] as char);
        k = k + 1;
        assert(v@ =~= ata_chars(b@).subrange(0, 2 * k as int));
    }
    assert(v@ =~= ata_chars(b@));
    v
}

impl DiskInfo {
    /// The model name, byte-swapped back and trimmed.
    pub fn model_string(&self) -> (res: String)
        ensures
            res@ == trim(ata_chars(self.model@), 0, ata_chars(self.model@).len() as int),
    {
        let cs = swapped_chars(&self.model);
        let (a, b) = trim_range(&cs, 0, cs.len());
        string_from_chars(&cs, a, b)
    }

    /// The serial number, byte-swapped back and trimmed.
    pub fn serial_string(&self) -> (res: String)
        ensures
            res@ == trim(ata_chars(self.serial@), 0, ata_chars(self.serial@).len() as int),
    {
        let cs = swapped_chars(&self.serial);
        let (a, b) = trim_range(&cs, 0, cs.len());
        string_from_chars(&cs, a, b)
    }
}

/// The number of sectors in IDENTIFY data: the 48-bit count (words 100-103) when the
/// disk supports LBA48 (word 83, bit 10), else the 28-bit count (words 60-61).
pub open spec fn identify_sectors(w: Seq<u16>) -> nat {
    if w[83] & 0x400 != 0 {
        w[100] as nat + 0x1_0000 * (w[101] as nat + 0x1_0000 * (w[102] as nat + 0x1_0000 * w[103] as nat))
    } else {
        w[60] as nat + 0x1_0000 * w[61] as nat
    }
}

/// The bytes of words `from .. from + n`, low byte first.
pub open spec fn word_bytes(w: Seq<u16>, from: int, n: nat) -> Seq<u8> {
    Seq::new(2 * n, |i: int| if i % 2 == 0 { (w[from + i / 2] % 256) as u8 } else { (w[from + i / 2] / 256) as u8 })
}

/// What the 256 words of IDENTIFY data say of the disk; the size in MiB is the sector
/// count divided by 2048.
pub fn parse_identify(w: &[u16]) -> (res: DiskInfo)
    requires
        w@.len() == 256,
    ensures
        res.sectors == identify_sectors(w@),
        res.size_mb == identify_sectors(w@) / 2048,
        res.model@ == word_bytes(w@, 27, 20),
        res.serial@ == word_bytes(w@, 10, 10),
{
    let sectors: u64 = if w[83] & 0x400 != 0 {
        w[100] as u64 + 0x1_0000 * (w[101] as u64 + 0x1_0000 * (w[102] as u64 + 0x1_0000 * w[103] as u64))
    } else {
        w[60] as u64 + 0x1_0000 * w[61] as u64
    };
    let mut model: [u8; 40] = [0; 40];
    let mut i: usize = 0;
    while i < 20
        invariant
            w@.len() == 256,
            i <= 20,
            model@.len() == 40,
            forall|k: int| 0 <= k < 2 * i ==> model@[k] == word_bytes(w@, 27, 20)[k],
        decreases 20 - i,
    {
        let word = w[27 + i];
        model[2 * i] = (word % 256) as u8;
        model[2 * i + 1] = (word / 256) as u8;
        i = i + 1;
    }
    let mut serial: [u8; 20] = [0; 20];
    let mut j: usize = 0;
    while j < 10
        invariant
            w@.len() == 256,
            j <= 10,
            serial@.len() == 20,
            forall|k: int| 0 <= k < 2 * j ==> serial@[k] == word_bytes(w@, 10, 10)[k],
        decreases 10 - j,
    {
        let word = w[10 + j];
        serial[2 * j] = (word % 256) as u8;
        serial[2 * j + 1] = (word / 256) as u8;
        j = j + 1;
    }
    assert(model@ =~= word_bytes(w@, 27, 20));
    assert(serial@ =~= word_bytes(w@, 10, 10));
    DiskInfo { sectors, size_mb: sectors / 2048, model, serial }
}

/// Reading `count` sectors from `start_lba` into a buffer of `buffer_len` bytes: the
/// sectors to read, in order, each one then stored with `store_sector` (the reading
/// stops at the first sector that fails, with its error); the refusal when the buffer
/// cannot hold them.
pub fn read_sectors(start_lba: u64, count: usize, buffer_len: usize) -> (res: Result<Vec<u64>, &'static str>)
    requires
        start_lba + count <= u64::MAX,
    ensures
        buffer_len < count * SECTOR_SIZE ==> (res matches Err(e) && e@ == "Buffer too small"@),
        buffer_len >= count * SECTOR_SIZE ==> (res matches Ok(v) && v@.len() == count
            && forall|k: int| 0 <= k < count ==> #[trigger] v@[k] == start_lba + k),
{
    if count > buffer_len / SECTOR_SIZE {
        return Err("Buffer too small");
    }
    let mut v: Vec<u64> = Vec::new();
    let mut i: usize = 0;
    while i < count
        invariant
            i <= count,
            start_lba + count <= u64::MAX,
            v@.len() == i,
            forall|k: int| 0 <= k < i ==> #[trigger] v@[k] == start_lba + k,
        decreases count - i,
    {
        v.push(start_lba + i as u64);
        i = i + 1;
    }
    Ok(v)
}

/// Puts the `i`-th sector read into its place in the buffer; the rest of the buffer is
/// unchanged.
pub fn store_sector(buffer: &mut Vec<u8>, i: usize, sector: &[u8])
    requires
        i * SECTOR_SIZE + SECTOR_SIZE <= old(buffer)@.len(),
        sector@.len() == SECTOR_SIZE,
    ensures
        final(buffer)@ == old(buffer)@.subrange(0, i * 512) + sector@ + old(buffer)@.subrange(i * 512 + 512,
            old(buffer)@.len() as int),
{
    let ghost before = buffer@;
    let n = buffer.len();
    let mut k: usize = 0;
    while k < SECTOR_SIZE
        invariant
            n == buffer@.len(),
            k <= SECTOR_SIZE,
            i * SECTOR_SIZE + SECTOR_SIZE <= before.len(),
            buffer@.len() == before.len(),
            sector@.len() == SECTOR_SIZE,
            forall|q: int| 0 <= q < k ==> buffer@[i * 512 + q] == sector@[q],
            forall|q: int| 0 <= q < buffer@.len() && !(i * 512 <= q < i * 512 + k) ==> buffer@[q] == before[q],
        decreases SECTOR_SIZE - k,
    {
        buffer.set(i * SECTOR_SIZE + k, sector[k]);
        k = k + 1;
    }
    assert(buffer@ =~= before.subrange(0, i * 512) + sector@ + before.subrange(i * 512 + 512, before.len() as int));
}

/// The sector images that writing `buffer` makes: consecutive 512-byte pieces, the last
/// one padded with zeros.
pub open spec fn sector_image(b: Seq<u8>, i: int) -> Seq<u8> {
    Seq::new(SECTOR_SIZE as nat, |k: int| if i * 512 + k < b.len() { b[i * 512 + k] } else { 0u8 })
}

/// Writing `buffer` from `start_lba` on: the sectors to write, in order, each with its
/// image (the last one padded with zeros); the writing stops at the first sector that
/// fails, with its error.
pub fn write_sectors(start_lba: u64, buffer: &[u8]) -> (res: Vec<(u64, Vec<u8>)>)
    requires
        buffer@.len() + 511 <= usize::MAX,
        start_lba + (buffer@.len() + 511) / 512 <= u64::MAX,
    ensures
        res@.len() == (buffer@.len() + 511) / 512,
        forall|k: int| 0 <= k < res@.len() ==> (#[trigger] res@[k]).0 == start_lba + k
            && res@[k].1@ == sector_image(buffer@, k),
{
    let count = buffer.len() / SECTOR_SIZE + (if buffer.len() % SECTOR_SIZE == 0 { 0 } else { 1 });
    let mut out: Vec<(u64, Vec<u8>)> = Vec::new();
    let mut i: usize = 0;
    while i < count
        invariant
            i <= count,
            count == (buffer@.len() + 511) / 512,
            start_lba + count <= u64::MAX,
            out@.len() == i,
            forall|k: int| 0 <= k < i ==> (#[trigger] out@[k]).0 == start_lba + k && out@[k].1@ == sector_image(buffer@, k),
        decreases count - i,
    {
        assert(i * 512 < buffer@.len()) by (nonlinear_arith)
            requires i < count, count == (buffer@.len() + 511) / 512;
        let sector = sector_at(buffer, i);
        out.push((start_lba + i as u64, sector));
        i = i + 1;
    }
    out
}

/// The image of the `i`-th sector of `buffer`.
pub fn sector_at(buffer: &[u8], i: usize) -> (res: Vec<u8>)
    requires
        i * 512 < buffer@.len(),
    ensures
        res@ == sector_image(buffer@, i as int),
{
    let mut v: Vec<u8> = Vec::new();
    let mut k: usize = 0;
    let _len = buffer.len();
    let start = i * SECTOR_SIZE;
    while k < SECTOR_SIZE
        invariant
            k <= SECTOR_SIZE,
            start == i * 512,
            start < buffer@.len(),
            v@ == sector_image(buffer@, i as int).subrange(0, k as int),
        decreases SECTOR_SIZE - k,
    {
        let b: u8 = if k < buffer.len() - start { buffer[start + k] } else { 0 };
        v.push(b);
        k = k + 1;
        assert(v@ =~= sector_image(buffer@, i as int).subrange(0, k as int));
    }
    assert(v@ =~= sector_image(buffer@, i as int));
    v
}

pub const ATA_SR_BSY: u8 = 0x80;
pub const ATA_SR_DRQ: u8 = 0x08;
pub const ATA_SR_ERR: u8 = 0x01;
pub const ATA_CMD_READ_PIO: u8 = 0x20;
pub const ATA_CMD_WRITE_PIO: u8 = 0x30;
pub const ATA_CMD_IDENTIFY: u8 = 0xEC;
pub const ATA_CMD_FLUSH: u8 = 0xE7;
/// Status reads made while waiting before giving up.
pub const ATA_WAIT_LIMIT: u32 = 1_000_000;

/// One status read while waiting on the disk.
#[derive(Debug, Clone, Copy, PartialEq, Eq, Structural)]
pub enum WaitStep {
    /// Read the status again.
    Again,
    /// The wait is over.
    Ready,
    /// The disk reports an error.
    Error,
}

/// Waiting for BSY to clear: once it is clear, ERR decides.
pub fn busy_step(status: u8) -> (res: WaitStep)
    ensures
        res == if status & ATA_SR_BSY != 0 { WaitStep::Again }
            else if status & ATA_SR_ERR != 0 { WaitStep::Error }
            else { WaitStep::Ready },
{
    if status & ATA_SR_BSY == 0 {
        if status & ATA_SR_ERR != 0 { WaitStep::Error } else { WaitStep::Ready }
    } else {
        WaitStep::Again
    }
}

/// Waiting for DRQ: DRQ set ends it, else ERR fails it.
pub fn drq_step(status: u8) -> (res: WaitStep)
    ensures
        res == if status & ATA_SR_DRQ != 0 { WaitStep::Ready }
            else if status & ATA_SR_ERR != 0 { WaitStep::Error }
            else { WaitStep::Again },
{
    if status & ATA_SR_DRQ != 0 {
        WaitStep::Ready
    } else if status & ATA_SR_ERR != 0 {
        WaitStep::Error
    } else {
        WaitStep::Again
    }
}

/// The message of a wait that ended in an error or ran out.
pub fn wait_error(step: WaitStep, drq: bool) -> (res: &'static str)
    ensures
        step == WaitStep::Error ==> res@ == "ATA error"@,
        step != WaitStep::Error && drq ==> res@ == "ATA timeout (DRQ)"@,
        step != WaitStep::Error && !drq ==> res@ == "ATA timeout (busy)"@,
{
    if step == WaitStep::Error {
        "ATA error"
    } else if drq {
        "ATA timeout (DRQ)"
    } else {
        "ATA timeout (busy)"
    }
}

/// After IDENTIFY: a status of zero means no disk; after BSY clears, a non-zero LBA
/// mid or high byte means a packet (ATAPI) device.
pub fn identify_response(status: u8, lba_mid: u8, lba_high: u8) -> (res: Result<(), &'static str>)
    ensures
        match res {
            Ok(()) => status != 0 && lba_mid == 0 && lba_high == 0,
            Err(e) => (status == 0 && e@ == "No disk detected"@)
                || (status != 0 && (lba_mid != 0 || lba_high != 0) && e@ == "Not an ATA disk (probably ATAPI)"@),
        },
{
    if status == 0 {
        return Err("No disk detected");
    }
    if lba_mid != 0 || lba_high != 0 {
        return Err("Not an ATA disk (probably ATAPI)");
    }
    Ok(())
}

/// The register values that address one sector at `lba` (LBA28): drive select with
/// bits 24..27, sector count 1, then bits 0..7, 8..15 and 16..23.
pub fn access_registers(lba: u64) -> (res: [u8; 5])
    ensures
        res[0] == 0xE0 + (lba / 0x100_0000) % 16,
        res[1] == 1,
        res[2] == lba % 256,
        res[3] == (lba / 256) % 256,
        res[4] == (lba / 0x1_0000) % 256,
{
    [(0xE0 + (lba / 0x100_0000) % 16) as u8, 1, (lba % 256) as u8, ((lba / 256) % 256) as u8, ((lba / 0x1_0000) % 256) as u8]
}

/// The primary master disk as the driver knows it.
pub struct AtaDriver {
    pub info: Option<DiskInfo>,
}

impl AtaDriver {
    pub fn new() -> (res: Self)
        ensures
            res.info is None,
    {
        AtaDriver { info: None }
    }

    /// What IDENTIFY found, once the disk is set up.
    pub fn info(&self) -> (res: Option<&DiskInfo>)
        ensures
            res == match self.info { Some(ref i) => Some(i), None => None::<&DiskInfo> },
    {
        match &self.info {
            Some(i) => Some(i),
            None => None,
        }
    }

    /// A sector may be accessed: the disk is set up and `lba` lies on it.
    pub fn check_lba(&self, lba: u64) -> (res: Result<(), &'static str>)
        ensures
            match res {
                Ok(()) => self.info matches Some(i) && lba < i.sectors,
                Err(e) => (self.info is None && e@ == "Disk not initialized"@)
                    || (self.info matches Some(i) && lba >= i.sectors && e@ == "LBA out of range"@),
            },
    {
        match &self.info {
            None => Err("Disk not initialized"),
            Some(i) => if lba >= i.sectors { Err("LBA out of range") } else { Ok(()) },
        }
    }

    /// A copy of what IDENTIFY found, once the disk is set up.
    pub fn disk_info(&self) -> (res: Option<DiskInfo>)
        ensures
            res == self.info,
    {
        self.info
    }

    /// The disk's size in sectors; zero before it is set up.
    pub fn capacity(&self) -> (res: u64)
        ensures
            res == match self.info { Some(i) => i.sectors, None => 0 },
    {
        match &self.info {
            Some(i) => i.sectors,
            None => 0,
        }
    }
}

} // verus!
