//! ELF64 executables for user processes: header validation, program-header
//! walk, address-space layout randomisation and the W^X page policy.
//!
//! The library decides everything about a load and returns it as an
//! `ElfLoadPlan`; mapping pages and copying bytes is left to the caller.
use vstd::prelude::*;
use crate::bytes::{get_le16, get_le32, get_le64, le16, le32, le64};

verus! {

pub const PAGE_SIZE: u64 = 4096;
pub const PHDR_SIZE: u64 = 56;
pub const ET_EXEC: u16 = 2;
pub const ET_DYN: u16 = 3;
pub const EM_X86_64: u16 = 62;
pub const PT_LOAD: u32 = 1;
pub const PF_X: u32 = 1;
pub const PF_W: u32 = 2;
pub const PF_R: u32 = 4;

/// Why an image is refused.
#[derive(Debug, Clone, Copy, PartialEq, Eq, Structural)]
pub enum ElfError {
    TooSmall,
    BadHeaderSize,
    BadMagic,
    NotElf64,
    NotLittleEndian,
    UnknownVersion,
    NotExecutable,
    NotX86_64,
    NoProgramHeaders,
    BadPhentsize,
    HeadersOutOfBounds,
    NoLoadableSegments,
    SegmentOutOfBounds,
    SegmentOutsideUser,
}

pub open spec fn spec_error_message(e: ElfError) -> Seq<char> {
    match e {
        ElfError::TooSmall => "ELF too small"@,
        ElfError::BadHeaderSize => "Invalid ELF header size"@,
        ElfError::BadMagic => "Invalid ELF magic"@,
        ElfError::NotElf64 => "Not ELF64"@,
        ElfError::NotLittleEndian => "Not little-endian"@,
        ElfError::UnknownVersion => "Unknown ELF version"@,
        ElfError::NotExecutable => "Not executable"@,
        ElfError::NotX86_64 => "Not x86_64"@,
        ElfError::NoProgramHeaders => "No program headers"@,
        ElfError::BadPhentsize => "Invalid program header entry size"@,
        ElfError::HeadersOutOfBounds => "Program headers out of bounds"@,
        ElfError::NoLoadableSegments => "No loadable segments"@,
        ElfError::SegmentOutOfBounds => "Segment out of bounds"@,
        ElfError::SegmentOutsideUser => "Segment address outside user space"@,
    }
}

impl ElfError {
    /// The message the loader reports for this error.
    pub fn message(&self) -> (res: &'static str)
        ensures
            res@ == spec_error_message(*self),
    {
        match self {
            ElfError::TooSmall => "ELF too small",
            ElfError::BadHeaderSize => "Invalid ELF header size",
            ElfError::BadMagic => "Invalid ELF magic",
            ElfError::NotElf64 => "Not ELF64",
            ElfError::NotLittleEndian => "Not little-endian",
            ElfError::UnknownVersion => "Unknown ELF version",
            ElfError::NotExecutable => "Not executable",
            ElfError::NotX86_64 => "Not x86_64",
            ElfError::NoProgramHeaders => "No program headers",
            ElfError::BadPhentsize => "Invalid program header entry size",
            ElfError::HeadersOutOfBounds => "Program headers out of bounds",
            ElfError::NoLoadableSegments => "No loadable segments",
            ElfError::SegmentOutOfBounds => "Segment out of bounds",
            ElfError::SegmentOutsideUser => "Segment address outside user space",
        }
    }
}

/// The fields of the file header that the loader uses.
#[derive(Debug, Clone, Copy, PartialEq, Eq, Structural)]
pub struct ElfHeader {
    pub e_type: u16,
    pub e_machine: u16,
    pub e_version: u32,
    pub e_entry: u64,
    pub e_phoff: u64,
    pub e_ehsize: u16,
    pub e_phentsize: u16,
    pub e_phnum: u16,
}

/// The first check that the file header fails, if any.
#[verifier::opaque]
pub open spec fn header_error(d: Seq<u8>) -> Option<ElfError> {
    if d.len() < 64 {
        Some(ElfError::TooSmall)
    } else if le16(d, 52) > d.len() || le16(d, 52) < 64 {
        Some(ElfError::BadHeaderSize)
    } else if !(d[0] == 0x7f && d[1] == 0x45 && d[2] == 0x4c && d[3] == 0x46) {
        Some(ElfError::BadMagic)
    } else if d[4] != 2 {
        Some(ElfError::NotElf64)
    } else if d[5] != 1 {
        Some(ElfError::NotLittleEndian)
    } else if le32(d, 20) != 1 {
        Some(ElfError::UnknownVersion)
    } else if le16(d, 16) != 2 && le16(d, 16) != 3 {
        Some(ElfError::NotExecutable)
    } else if le16(d, 18) != 62 {
        Some(ElfError::NotX86_64)
    } else if le16(d, 56) == 0 {
        Some(ElfError::NoProgramHeaders)
    } else if le16(d, 54) != 56 {
        Some(ElfError::BadPhentsize)
    } else if le64(d, 32) + le16(d, 56) * 56 > d.len() {
        Some(ElfError::HeadersOutOfBounds)
    } else {
        None
    }
}

/// `h` holds the header fields of `d`.
pub open spec fn header_of(h: ElfHeader, d: Seq<u8>) -> bool {
    &&& h.e_type as nat == le16(d, 16)
    &&& h.e_machine as nat == le16(d, 18)
    &&& h.e_version as nat == le32(d, 20)
    &&& h.e_entry as nat == le64(d, 24)
    &&& h.e_phoff as nat == le64(d, 32)
    &&& h.e_ehsize as nat == le16(d, 52)
    &&& h.e_phentsize as nat == le16(d, 54)
    &&& h.e_phnum as nat == le16(d, 56)
}

/// Reads and validates the file header, in the order the loader checks it.
pub fn parse_header(elf: &[u8]) -> (res: Result<ElfHeader, ElfError>)
    ensures
        match res {
            Ok(h) => header_error(elf@) is None && header_of(h, elf@)
                && h.e_phoff + h.e_phnum * 56 <= elf@.len(),
            Err(e) => header_error(elf@) == Some(e),
        },
{
    reveal(header_error);
    let len = elf.len();
    if len < 64 {
        return Err(ElfError::TooSmall);
    }
    let e_ehsize = get_le16(elf, 52);
    if e_ehsize as usize > len || e_ehsize < 64 {
        return Err(ElfError::BadHeaderSize);
    }
    if !(elf[0] == 0x7f && elf[1] == 0x45 && elf[2] == 0x4c && elf[3] == 0x46) {
        return Err(ElfError::BadMagic);
    }
    if elf[4] != 2 {
        return Err(ElfError::NotElf64);
    }
    if elf[5] != 1 {
        return Err(ElfError::NotLittleEndian);
    }
    let e_version = get_le32(elf, 20);
    if e_version != 1 {
        return Err(ElfError::UnknownVersion);
    }
    let e_type = get_le16(elf, 16);
    if e_type != ET_EXEC && e_type != ET_DYN {
        return Err(ElfError::NotExecutable);
    }
    let e_machine = get_le16(elf, 18);
    if e_machine != EM_X86_64 {
        return Err(ElfError::NotX86_64);
    }
    let e_phnum = get_le16(elf, 56);
    if e_phnum == 0 {
        return Err(ElfError::NoProgramHeaders);
    }
    let e_phentsize = get_le16(elf, 54);
    if e_phentsize != 56 {
        return Err(ElfError::BadPhentsize);
    }
    let e_phoff = get_le64(elf, 32);
    let table = e_phnum as u64 * 56;
    if e_phoff > len as u64 || table > len as u64 - e_phoff {
        return Err(ElfError::HeadersOutOfBounds);
    }
    let e_entry = get_le64(elf, 24);
    Ok(ElfHeader { e_type, e_machine, e_version, e_entry, e_phoff, e_ehsize, e_phentsize, e_phnum })
}

/// Page permissions of a user mapping. No value is both writable and executable.
#[derive(Debug, Clone, Copy, PartialEq, Eq, Structural)]
pub enum PageAccess {
    ReadWrite,
    ReadExec,
    ReadOnly,
    /// Mapped with no access at all.
    NoAccess,
}

pub open spec fn spec_segment_access(f: u32) -> PageAccess {
    let w = f & 2 != 0;
    let x = f & 1 != 0;
    let r = f & 4 != 0;
    if w {
        PageAccess::ReadWrite
    } else if x {
        PageAccess::ReadExec
    } else if r {
        PageAccess::ReadOnly
    } else {
        PageAccess::NoAccess
    }
}

/// Maps segment flags to page permissions under the W^X policy: a segment that
/// asks to be both writable and executable is mapped writable and not executable; one
/// with none of R, W and X gets no access.
pub fn segment_access(elf_flags: u32) -> (res: PageAccess)
    ensures
        res == spec_segment_access(elf_flags),
        (elf_flags & PF_W != 0) ==> res == PageAccess::ReadWrite,
        res == PageAccess::ReadExec ==> elf_flags & PF_X != 0 && elf_flags & PF_W == 0,
        (elf_flags & PF_R == 0 && elf_flags & PF_W == 0 && elf_flags & PF_X == 0) ==> res == PageAccess::NoAccess,
{
    let can_write = (elf_flags & PF_W) != 0;
    let can_exec = (elf_flags & PF_X) != 0;
    let can_read = (elf_flags & PF_R) != 0;
    if can_write && can_exec {
        PageAccess::ReadWrite
    } else if can_write {
        PageAccess::ReadWrite
    } else if can_exec && can_read {
        PageAccess::ReadExec
    } else if can_exec {
        PageAccess::ReadExec
    } else if can_read {
        PageAccess::ReadOnly
    } else {
        PageAccess::NoAccess
    }
}

/// Layout constants of the user address space that the loader works within.
#[derive(Debug, Clone, Copy, PartialEq, Eq, Structural)]
pub struct ElfLimits {
    /// First address above user space.
    pub user_addr_max: u64,
    /// Highest address of the user stack.
    pub stack_top: u64,
    pub stack_size: u64,
    /// Bits of randomness in the code base of position-independent images.
    pub code_entropy_bits: u32,
}

impl ElfLimits {
    pub open spec fn wf(self) -> bool {
        &&& self.user_addr_max <= 0x8000_0000_0000_0000u64
        &&& 8 <= self.stack_top <= 0x8000_0000_0000_0000u64
        &&& self.stack_size <= self.stack_top
        &&& self.code_entropy_bits < 64
    }
}

/// The random page offset of a code base: `bits` random bits, in pages.
pub open spec fn page_offset(random: u64, bits: u32) -> int {
    (random & (((1u64 << bits) - 1) as u64)) * 4096
}

pub open spec fn spec_randomize_addr(base: u64, size: int, random: u64, bits: u32, top: u64) -> u64 {
    let r = base + page_offset(random, bits);
    if r + size > top {
        base
    } else {
        (r as u64) & !0xfffu64
    }
}

/// Moves `base` up by a random number of pages, unless the region of `size`
/// bytes would then reach above `top`.
pub fn randomize_addr(base: u64, size: u128, random: u64, bits: u32, top: u64) -> (res: u64)
    requires
        bits < 64,
        size <= 0x2_0000_0000_0000_0000u128,
    ensures
        res == spec_randomize_addr(base, size as int, random, bits, top),
{
    assert((1u64 << bits) >= 1) by (bit_vector)
        requires
            bits < 64,
    ;
    let mask: u64 = (1u64 << bits) - 1;
    let offset = random & mask;
    let page_off: u128 = offset as u128 * 4096;
    let r: u128 = base as u128 + page_off;
    if r + size > top as u128 {
        base
    } else {
        (r as u64) & !0xfffu64
    }
}

/// The user stack top: the randomised candidate where it leaves at least eight
/// bytes above the stack's bottom and stays below its top, else eight bytes
/// below the top.
pub open spec fn spec_stack_top(random_top: u64, top: u64, size: u64) -> u64 {
    if random_top < top && random_top >= top - size + 8 {
        random_top
    } else {
        (top - 8) as u64
    }
}

pub fn choose_stack_top(random_top: u64, lim: &ElfLimits) -> (res: u64)
    requires
        lim.wf(),
    ensures
        res == spec_stack_top(random_top, lim.stack_top, lim.stack_size),
        res < lim.stack_top,
{
    let bottom = lim.stack_top - lim.stack_size;
    if random_top < lim.stack_top && random_top >= bottom + 8 {
        random_top
    } else {
        lim.stack_top - 8
    }
}

// Program header fields at byte `b`.
pub open spec fn ph_type(d: Seq<u8>, b: int) -> nat { le32(d, b) }
pub open spec fn ph_flags(d: Seq<u8>, b: int) -> nat { le32(d, b + 4) }
pub open spec fn ph_offset(d: Seq<u8>, b: int) -> nat { le64(d, b + 8) }
pub open spec fn ph_vaddr(d: Seq<u8>, b: int) -> nat { le64(d, b + 16) }
pub open spec fn ph_filesz(d: Seq<u8>, b: int) -> nat { le64(d, b + 32) }
pub open spec fn ph_memsz(d: Seq<u8>, b: int) -> nat { le64(d, b + 40) }
pub open spec fn ph_align(d: Seq<u8>, b: int) -> nat { le64(d, b + 48) }

/// A program header as read from the image.
#[derive(Debug, Clone, Copy, PartialEq, Eq, Structural)]
pub struct ProgramHeader {
    pub p_type: u32,
    pub p_flags: u32,
    pub p_offset: u64,
    pub p_vaddr: u64,
    pub p_filesz: u64,
    pub p_memsz: u64,
    pub p_align: u64,
}

/// The program header stored at byte `b`.
pub open spec fn spec_phdr(d: Seq<u8>, b: int) -> ProgramHeader {
    ProgramHeader {
        p_type: ph_type(d, b) as u32,
        p_flags: ph_flags(d, b) as u32,
        p_offset: ph_offset(d, b) as u64,
        p_vaddr: ph_vaddr(d, b) as u64,
        p_filesz: ph_filesz(d, b) as u64,
        p_memsz: ph_memsz(d, b) as u64,
        p_align: ph_align(d, b) as u64,
    }
}

/// Reads the program header at byte `b`.
pub fn read_phdr(elf: &[u8], b: usize) -> (p: ProgramHeader)
    requires
        b + 56 <= elf@.len(),
    ensures
        p == spec_phdr(elf@, b as int),
        p.p_type as nat == ph_type(elf@, b as int),
        p.p_flags as nat == ph_flags(elf@, b as int),
        p.p_offset as nat == ph_offset(elf@, b as int),
        p.p_vaddr as nat == ph_vaddr(elf@, b as int),
        p.p_filesz as nat == ph_filesz(elf@, b as int),
        p.p_memsz as nat == ph_memsz(elf@, b as int),
        p.p_align as nat == ph_align(elf@, b as int),
{
    let _n = elf.len();
    ProgramHeader {
        p_type: get_le32(elf, b),
        p_flags: get_le32(elf, b + 4),
        p_offset: get_le64(elf, b + 8),
        p_vaddr: get_le64(elf, b + 16),
        p_filesz: get_le64(elf, b + 32),
        p_memsz: get_le64(elf, b + 40),
        p_align: get_le64(elf, b + 48),
    }
}

/// The byte where program header `i` starts.
pub open spec fn phdr_at(phoff: int, i: int) -> int {
    phoff + i * 56
}

pub open spec fn loadable(d: Seq<u8>, b: int) -> bool {
    ph_type(d, b) == 1 && ph_memsz(d, b) > 0
}

/// Lowest start address of the loadable segments among the first `n` headers
/// (`u64::MAX` where there is none).
pub open spec fn span_min(d: Seq<u8>, phoff: int, n: nat) -> int
    decreases n,
{
    if n == 0 {
        u64::MAX as int
    } else {
        let m = span_min(d, phoff, (n - 1) as nat);
        let b = phdr_at(phoff, n - 1);
        if loadable(d, b) && ph_vaddr(d, b) < m {
            ph_vaddr(d, b) as int
        } else {
            m
        }
    }
}

/// Highest end address of the loadable segments among the first `n` headers (0 where there is none).
pub open spec fn span_max(d: Seq<u8>, phoff: int, n: nat) -> int
    decreases n,
{
    if n == 0 {
        0
    } else {
        let m = span_max(d, phoff, (n - 1) as nat);
        let b = phdr_at(phoff, n - 1);
        if loadable(d, b) && ph_vaddr(d, b) + ph_memsz(d, b) > m {
            (ph_vaddr(d, b) + ph_memsz(d, b)) as int
        } else {
            m
        }
    }
}

proof fn lemma_phdr_in_table(phoff: int, i: int, n: int, len: int)
    requires
        0 <= i < n,
        phoff >= 0,
        phoff + n * 56 <= len,
    ensures
        phdr_at(phoff, i) + 56 <= len,
{
    assert(i * 56 + 56 <= n * 56) by (nonlinear_arith)
        requires
            0 <= i < n,
    ;
}

/// The load span of a position-independent image: (lowest start, highest end)
/// of its loadable segments.
pub fn load_span(elf: &[u8], h: &ElfHeader) -> (res: (u64, u128))
    requires
        h.e_phoff + h.e_phnum * 56 <= elf@.len(),
    ensures
        res.0 == span_min(elf@, h.e_phoff as int, h.e_phnum as nat),
        res.1 == span_max(elf@, h.e_phoff as int, h.e_phnum as nat),
        res.1 <= 2 * (u64::MAX as int),
        res.0 < u64::MAX ==> res.0 <= res.1,
{
    let len = elf.len();
    let mut min_vaddr: u64 = u64::MAX;
    let mut max_vaddr: u128 = 0;
    let mut i: u16 = 0;
    while i < h.e_phnum
        invariant
            len == elf@.len(),
            i <= h.e_phnum,
            h.e_phoff + h.e_phnum * 56 <= elf@.len(),
            min_vaddr == span_min(elf@, h.e_phoff as int, i as nat),
            max_vaddr == span_max(elf@, h.e_phoff as int, i as nat),
            max_vaddr <= 2 * (u64::MAX as int),
            min_vaddr < u64::MAX ==> min_vaddr <= max_vaddr,
        decreases h.e_phnum - i,
    {
        proof {
            lemma_phdr_in_table(h.e_phoff as int, i as int, h.e_phnum as int, elf@.len() as int);
        }
        assert(h.e_phoff + i * 56 + 56 <= len);
        let b = (h.e_phoff + i as u64 * 56) as usize;
        let ph = read_phdr(elf, b);
        assert(b as int == phdr_at(h.e_phoff as int, i as int));
        if ph.p_type == PT_LOAD && ph.p_memsz > 0 {
            if ph.p_vaddr < min_vaddr {
                min_vaddr = ph.p_vaddr;
            }
            let end: u128 = ph.p_vaddr as u128 + ph.p_memsz as u128;
            if end > max_vaddr {
                max_vaddr = end;
            }
        }
        i = i + 1;
    }
    (min_vaddr, max_vaddr)
}

/// What to do for one loadable segment.
#[derive(Debug, Clone, Copy, PartialEq, Eq, Structural)]
pub struct SegmentPlan {
    /// Page-aligned start and byte length of the mapping.
    pub map_base: u64,
    pub map_len: u64,
    pub access: PageAccess,
    /// Where the file bytes go, and which file bytes.
    pub vaddr: u64,
    pub file_offset: u64,
    pub file_len: u64,
    /// Bytes the segment occupies in memory.
    pub mem_len: u64,
    /// Zero-filled bytes after the file bytes.
    pub zero_len: u64,
}

/// A segment's mapping covers it, lies in user space, and its file bytes lie in the image.
pub open spec fn segment_fits(s: SegmentPlan, len: nat, user_max: u64) -> bool {
    &&& s.map_base <= s.vaddr
    &&& s.vaddr + s.mem_len <= s.map_base + s.map_len
    &&& s.vaddr + s.mem_len < user_max
    &&& s.file_offset + s.file_len <= len
}

/// The outcome of one program header.
#[derive(Debug, Clone, Copy, PartialEq, Eq, Structural)]
pub enum SegStep {
    Skip,
    Fail(ElfError),
    Load(SegmentPlan),
}

pub open spec fn spec_align_of(a: u64) -> u64 {
    if a > 4096 { a } else { 4096 }
}

pub open spec fn spec_segment_plan(p: ProgramHeader, vaddr: u64) -> SegmentPlan {
    let align = spec_align_of(p.p_align);
    let base = vaddr & !((align - 1) as u64);
    let pages = (p.p_memsz + (vaddr - base) + 4095) / 4096;
    SegmentPlan {
        map_base: base,
        map_len: (pages * 4096) as u64,
        access: spec_segment_access(p.p_flags),
        vaddr,
        file_offset: p.p_offset,
        file_len: p.p_filesz,
        mem_len: p.p_memsz,
        zero_len: if p.p_memsz > p.p_filesz { (p.p_memsz - p.p_filesz) as u64 } else { 0 },
    }
}

pub open spec fn spec_seg_step(p: ProgramHeader, len: nat, delta: u64, user_max: u64) -> SegStep {
    let vaddr = ((p.p_vaddr + delta) % 0x1_0000_0000_0000_0000) as u64;
    if p.p_type != 1 || p.p_memsz == 0 {
        SegStep::Skip
    } else if p.p_offset + p.p_filesz > len {
        SegStep::Fail(ElfError::SegmentOutOfBounds)
    } else if vaddr >= user_max || vaddr + p.p_memsz >= user_max {
        SegStep::Fail(ElfError::SegmentOutsideUser)
    } else {
        SegStep::Load(spec_segment_plan(p, vaddr))
    }
}

/// Decides what one program header asks for: nothing, a refusal, or a mapping.
pub fn segment_step(p: &ProgramHeader, len: usize, delta: u64, user_max: u64) -> (res: SegStep)
    requires
        user_max <= 0x8000_0000_0000_0000u64,
    ensures
        res == spec_seg_step(*p, len as nat, delta, user_max),
        res matches SegStep::Load(s) ==> segment_fits(s, len as nat, user_max),
{
    let vaddr = p.p_vaddr.wrapping_add(delta);
    if p.p_type != PT_LOAD || p.p_memsz == 0 {
        return SegStep::Skip;
    }
    if p.p_offset > len as u64 || p.p_filesz > len as u64 - p.p_offset {
        return SegStep::Fail(ElfError::SegmentOutOfBounds);
    }
    if vaddr >= user_max || p.p_memsz >= user_max - vaddr {
        return SegStep::Fail(ElfError::SegmentOutsideUser);
    }
    let align: u64 = if p.p_align > PAGE_SIZE { p.p_align } else { PAGE_SIZE };
    let mask: u64 = !(align - 1);
    let base: u64 = vaddr & mask;
    assert(base <= vaddr) by (bit_vector)
        requires
            base == vaddr & mask,
    ;
    let span: u64 = p.p_memsz + (vaddr - base) + 4095;
    let pages: u64 = span / 4096;
    assert(pages * 4096 <= span && span < pages * 4096 + 4096) by (nonlinear_arith)
        requires
            pages == span / 4096,
    ;
    let map_len: u64 = pages * 4096;
    let zero_len: u64 = if p.p_memsz > p.p_filesz { p.p_memsz - p.p_filesz } else { 0 };
    SegStep::Load(SegmentPlan {
        map_base: base,
        map_len,
        access: segment_access(p.p_flags),
        vaddr,
        file_offset: p.p_offset,
        file_len: p.p_filesz,
        mem_len: p.p_memsz,
        zero_len,
    })
}

/// The plans of the first `n` program headers, or the first refusal among them.
#[verifier::opaque]
pub open spec fn plan_prefix(d: Seq<u8>, phoff: int, n: nat, delta: u64, user_max: u64) -> Result<Seq<SegmentPlan>, ElfError>
    decreases n,
{
    if n == 0 {
        Ok(Seq::empty())
    } else {
        match plan_prefix(d, phoff, (n - 1) as nat, delta, user_max) {
            Err(e) => Err(e),
            Ok(s) => match spec_seg_step(spec_phdr(d, phdr_at(phoff, n - 1)), d.len(), delta, user_max) {
                SegStep::Skip => Ok(s),
                SegStep::Fail(e) => Err(e),
                SegStep::Load(p) => Ok(s.push(p)),
            },
        }
    }
}

proof fn lemma_refusal_sticks(d: Seq<u8>, phoff: int, n: nat, m: nat, delta: u64, user_max: u64)
    requires
        n <= m,
        plan_prefix(d, phoff, n, delta, user_max) is Err,
    ensures
        plan_prefix(d, phoff, m, delta, user_max) == plan_prefix(d, phoff, n, delta, user_max),
    decreases m - n,
{
    reveal(plan_prefix);
    if n < m {
        lemma_refusal_sticks(d, phoff, n, (m - 1) as nat, delta, user_max);
    }
}

/// Plans every program header in turn; stops at the first refusal.
pub fn plan_segments(elf: &[u8], phoff: u64, phnum: u16, delta: u64, user_max: u64) -> (res: Result<Vec<SegmentPlan>, ElfError>)
    requires
        phoff + phnum * 56 <= elf@.len(),
        user_max <= 0x8000_0000_0000_0000u64,
    ensures
        match res {
            Ok(v) => plan_prefix(elf@, phoff as int, phnum as nat, delta, user_max) == Ok::<Seq<SegmentPlan>, ElfError>(v@)
                && forall|k: int| 0 <= k < v@.len() ==> #[trigger] segment_fits(v@[k], elf@.len(), user_max),
            Err(e) => plan_prefix(elf@, phoff as int, phnum as nat, delta, user_max) == Err::<Seq<SegmentPlan>, ElfError>(e),
        },
{
    reveal(plan_prefix);
    let len = elf.len();
    let mut segments: Vec<SegmentPlan> = Vec::new();
    let mut i: u16 = 0;
    while i < phnum
        invariant
            len == elf@.len(),
            i <= phnum,
            phoff + phnum * 56 <= len,
            user_max <= 0x8000_0000_0000_0000u64,
            plan_prefix(elf@, phoff as int, i as nat, delta, user_max) == Ok::<Seq<SegmentPlan>, ElfError>(segments@),
            forall|k: int| 0 <= k < segments@.len() ==> #[trigger] segment_fits(segments@[k], elf@.len(), user_max),
        decreases phnum - i,
    {
        proof {
            reveal(plan_prefix);
            lemma_phdr_in_table(phoff as int, i as int, phnum as int, elf@.len() as int);
        }
        let b = (phoff + i as u64 * 56) as usize;
        let ph = read_phdr(elf, b);
        assert(b as int == phdr_at(phoff as int, i as int));
        match segment_step(&ph, len, delta, user_max) {
            SegStep::Skip => {},
            SegStep::Fail(e) => {
                proof {
                    lemma_refusal_sticks(elf@, phoff as int, (i + 1) as nat, phnum as nat, delta, user_max);
                }
                return Err(e);
            },
            SegStep::Load(s) => {
                segments.push(s);
            },
        }
        i = i + 1;
    }
    Ok(segments)
}

/// The randomisation applied to the image's addresses.
#[verifier::opaque]
pub open spec fn spec_delta(d: Seq<u8>, random: u64, lim: ElfLimits) -> Result<u64, ElfError> {
    if le16(d, 16) == 3 {
        let lo = span_min(d, le64(d, 32) as int, le16(d, 56));
        let hi = span_max(d, le64(d, 32) as int, le16(d, 56));
        if lo == u64::MAX {
            Err(ElfError::NoLoadableSegments)
        } else {
            Ok(spec_randomize_addr(0, hi - lo, random, lim.code_entropy_bits, lim.stack_top))
        }
    } else {
        Ok(0)
    }
}

/// The randomisation and the segment plans of an image, or why it is refused.
pub open spec fn spec_load_outcome(d: Seq<u8>, lim: ElfLimits, code_random: u64) -> Result<(u64, Seq<SegmentPlan>), ElfError> {
    match header_error(d) {
        Some(e) => Err(e),
        None => match spec_delta(d, code_random, lim) {
            Err(e) => Err(e),
            Ok(delta) => match plan_prefix(d, le64(d, 32) as int, le16(d, 56), delta, lim.user_addr_max) {
                Err(e) => Err(e),
                Ok(s) => Ok((delta, s)),
            },
        },
    }
}

/// The randomisation for an image whose header is `h`.
fn image_delta(elf: &[u8], h: &ElfHeader, lim: &ElfLimits, code_random: u64) -> (res: Result<u64, ElfError>)
    requires
        lim.wf(),
        header_of(*h, elf@),
        h.e_phoff + h.e_phnum * 56 <= elf@.len(),
    ensures
        res == spec_delta(elf@, code_random, *lim),
{
    reveal(spec_delta);
    if h.e_type == ET_DYN {
        let (lo, hi) = load_span(elf, h);
        if lo == u64::MAX {
            return Err(ElfError::NoLoadableSegments);
        }
        Ok(randomize_addr(0, hi - lo as u128, code_random, lim.code_entropy_bits, lim.stack_top))
    } else {
        Ok(0)
    }
}

/// Everything a loader does for an accepted image.
#[derive(Debug, Clone)]
pub struct ElfLoadPlan {
    pub entry: u64,
    pub delta: u64,
    pub stack_bottom: u64,
    pub stack_size: u64,
    pub stack_top: u64,
    pub segments: Vec<SegmentPlan>,
}

/// Validates an ELF64 image and plans its load: the user stack (mapped read-write
/// first), then one mapping per loadable segment, each filled with its file bytes
/// and zeroed beyond them. `code_random` and `stack_random_top` are the random
/// inputs of the layout randomisation.
pub fn plan_elf_load(elf: &[u8], lim: &ElfLimits, code_random: u64, stack_random_top: u64) -> (res: Result<ElfLoadPlan, ElfError>)
    requires
        lim.wf(),
    ensures
        match res {
            Ok(p) => {
                &&& spec_load_outcome(elf@, *lim, code_random) == Ok::<(u64, Seq<SegmentPlan>), ElfError>((p.delta, p.segments@))
                &&& p.entry == ((le64(elf@, 24) + p.delta) % 0x1_0000_0000_0000_0000) as u64
                &&& p.stack_bottom == lim.stack_top - lim.stack_size
                &&& p.stack_size == lim.stack_size
                &&& p.stack_top == spec_stack_top(stack_random_top, lim.stack_top, lim.stack_size)
                &&& forall|k: int| 0 <= k < p.segments@.len()
                    ==> #[trigger] segment_fits(p.segments@[k], elf@.len(), lim.user_addr_max)
            },
            Err(e) => spec_load_outcome(elf@, *lim, code_random) == Err::<(u64, Seq<SegmentPlan>), ElfError>(e),
        },
{
    let len = elf.len();
    let h = match parse_header(elf) {
        Ok(h) => h,
        Err(e) => return Err(e),
    };
    let delta = match image_delta(elf, &h, lim, code_random) {
        Ok(d) => d,
        Err(e) => return Err(e),
    };
    let stack_top = choose_stack_top(stack_random_top, lim);
    assert(h.e_phoff + h.e_phnum * 56 <= len);
    let segments = match plan_segments(elf, h.e_phoff, h.e_phnum, delta, lim.user_addr_max) {
        Ok(v) => v,
        Err(e) => return Err(e),
    };
    let entry = h.e_entry.wrapping_add(delta);
    Ok(ElfLoadPlan {
        entry,
        delta,
        stack_bottom: lim.stack_top - lim.stack_size,
        stack_size: lim.stack_size,
        stack_top,
        segments,
    })
}

} // verus!
