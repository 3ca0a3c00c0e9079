//! The loader of ELF32 programs: the program is placed in external DRAM at
//! `PROGRAM_START_ADDR`, its global offset table relocated, its stack and
//! arguments set up and the address of its exit routine recorded.

use vstd::prelude::*;

use crate::bus::{AREA2_SIZE, AREA2_START_ADDR};
use crate::cpu::{Cpu, CpuView};
use crate::error::EmuError;

verus! {

/// Where the program is placed.
pub const PROGRAM_START_ADDR: u32 = 0x416900;

/// Where the program starts within DRAM.
pub const PROGRAM_DRAM_OFFSET: u64 = 0x16900;

/// The size of the task control block above the stack.
pub const SIZE_OF_TCB: u64 = 88;

/// The segment type of a loadable segment.
pub const PT_LOAD: u32 = 1;

/// The size of an ELF32 file header.
pub const ELF_HEADER_SIZE: u64 = 52;

/// The size of an ELF32 section header.
pub const SECTION_HEADER_SIZE: u64 = 40;

/// The size of an ELF32 program header.
pub const PROGRAM_HEADER_SIZE: u64 = 32;

/// The size of an ELF32 symbol.
pub const SYMBOL_SIZE: u64 = 16;

/// The 16-bit field at `off`, in the byte order of the file.
pub open spec fn rd16(b: Seq<u8>, off: int, big: bool) -> u16 {
    if big {
        (b[off] * 0x100 + b[off + 1]) as u16
    } else {
        (b[off + 1] * 0x100 + b[off]) as u16
    }
}

/// The 32-bit field at `off`, in the byte order of the file.
pub open spec fn rd32(b: Seq<u8>, off: int, big: bool) -> u32 {
    if big {
        (b[off] * 0x1000000 + b[off + 1] * 0x10000 + b[off + 2] * 0x100 + b[off + 3]) as u32
    } else {
        (b[off + 3] * 0x1000000 + b[off + 2] * 0x10000 + b[off + 1] * 0x100 + b[off]) as u32
    }
}

/// The fields of the file header that the loader reads.
#[derive(Clone, Copy)]
pub struct ElfHeader32 {
    pub big_endian: bool,
    pub phoff: u32,
    pub shoff: u32,
    pub phnum: u16,
    pub shnum: u16,
    pub shstrndx: u16,
}

/// The fields of a section header that the loader reads.
#[derive(Clone, Copy)]
pub struct SectionHeader32 {
    pub name_idx: u32,
    pub ty: u32,
    pub addr: u32,
    pub offset: u32,
    pub size: u32,
    pub link: u32,
    pub entry_size: u32,
}

/// The fields of a program header that the loader reads.
#[derive(Clone, Copy)]
pub struct ProgramHeader32 {
    pub ty: u32,
    pub offset: u32,
    pub virtual_addr: u32,
    pub physical_addr: u32,
    pub size_in_file: u32,
    pub size_in_mem: u32,
}

/// The fields of a symbol that the loader reads.
#[derive(Clone, Copy)]
pub struct Symbol32 {
    pub name_idx: u32,
    pub value: u32,
}

/// The file header: the magic number, a 32-bit class and a byte order.
pub open spec fn spec_header(b: Seq<u8>) -> Option<ElfHeader32> {
    if b.len() < ELF_HEADER_SIZE || b[0] != 0x7f || b[1] != 0x45 || b[2] != 0x4c || b[3] != 0x46
        || b[4] != 1 || !(b[5] == 1 || b[5] == 2) {
        None
    } else {
        let big = b[5] == 2;
        Some(
            ElfHeader32 {
                big_endian: big,
                phoff: rd32(b, 28, big),
                shoff: rd32(b, 32, big),
                phnum: rd16(b, 44, big),
                shnum: rd16(b, 48, big),
                shstrndx: rd16(b, 50, big),
            },
        )
    }
}

/// The section header at `off`.
pub open spec fn spec_section(b: Seq<u8>, off: int, big: bool) -> SectionHeader32 {
    SectionHeader32 {
        name_idx: rd32(b, off, big),
        ty: rd32(b, off + 4, big),
        addr: rd32(b, off + 12, big),
        offset: rd32(b, off + 16, big),
        size: rd32(b, off + 20, big),
        link: rd32(b, off + 24, big),
        entry_size: rd32(b, off + 36, big),
    }
}

/// The program header at `off`.
pub open spec fn spec_program(b: Seq<u8>, off: int, big: bool) -> ProgramHeader32 {
    ProgramHeader32 {
        ty: rd32(b, off, big),
        offset: rd32(b, off + 4, big),
        virtual_addr: rd32(b, off + 8, big),
        physical_addr: rd32(b, off + 12, big),
        size_in_file: rd32(b, off + 16, big),
        size_in_mem: rd32(b, off + 20, big),
    }
}

/// The symbol at `off`.
pub open spec fn spec_symbol(b: Seq<u8>, off: int, big: bool) -> Symbol32 {
    Symbol32 { name_idx: rd32(b, off, big), value: rd32(b, off + 4, big) }
}

/// `n` entries of `size` bytes from `off` lie within the file.
pub open spec fn table_fits(b: Seq<u8>, off: int, n: int, size: int) -> bool {
    off <= b.len() && off + n * size <= b.len()
}

/// The section header table.
pub open spec fn spec_sections(b: Seq<u8>, h: ElfHeader32) -> Option<Seq<SectionHeader32>> {
    if table_fits(b, h.shoff as int, h.shnum as int, SECTION_HEADER_SIZE as int) {
        Some(Seq::new(h.shnum as nat, |i: int| spec_section(b, h.shoff + i * SECTION_HEADER_SIZE, h.big_endian)))
    } else {
        None
    }
}

/// The program header table.
pub open spec fn spec_programs(b: Seq<u8>, h: ElfHeader32) -> Option<Seq<ProgramHeader32>> {
    if table_fits(b, h.phoff as int, h.phnum as int, PROGRAM_HEADER_SIZE as int) {
        Some(Seq::new(h.phnum as nat, |i: int| spec_program(b, h.phoff + i * PROGRAM_HEADER_SIZE, h.big_endian)))
    } else {
        None
    }
}

/// The NUL-terminated string from `i`, without its terminator; `None` where
/// the file ends before a NUL.
pub open spec fn cstr_from(b: Seq<u8>, i: int) -> Option<Seq<u8>>
    decreases b.len() - i,
{
    if i < 0 || i >= b.len() {
        None
    } else if b[i] == 0 {
        Some(Seq::empty())
    } else {
        match cstr_from(b, i + 1) {
            Some(s) => Some(seq![b[i]] + s),
            None => None,
        }
    }
}

/// Entry `idx` of the string table at `table`.
pub open spec fn name_at(b: Seq<u8>, table: int, idx: int) -> Option<Seq<u8>> {
    if table > b.len() || table + idx > b.len() {
        None
    } else {
        cstr_from(b, table + idx)
    }
}

/// What the loader reads from a file: the section names, the section
/// headers and the program headers.
pub struct ElfImage {
    pub big_endian: bool,
    pub names: Vec<Vec<u8>>,
    pub sections: Vec<SectionHeader32>,
    pub programs: Vec<ProgramHeader32>,
}

/// The parsed file, as plain sequences.
pub struct ElfImageView {
    pub big_endian: bool,
    pub names: Seq<Seq<u8>>,
    pub sections: Seq<SectionHeader32>,
    pub programs: Seq<ProgramHeader32>,
}

impl View for ElfImage {
    type V = ElfImageView;

    open spec fn view(&self) -> ElfImageView {
        ElfImageView {
            big_endian: self.big_endian,
            names: self.names@.map_values(|n: Vec<u8>| n@),
            sections: self.sections@,
            programs: self.programs@,
        }
    }
}

/// The parse of a whole file: its header, its section headers with their
/// names from the table that `shstrndx` designates, and its program headers.
pub open spec fn spec_parse_elf(b: Seq<u8>) -> Option<ElfImageView> {
    match spec_header(b) {
        None => None,
        Some(h) => match spec_sections(b, h) {
            None => None,
            Some(shs) => if h.shstrndx >= shs.len() {
                None
            } else {
                let t = shs[h.shstrndx as int].offset as int;
                if exists|i: int| 0 <= i < shs.len() && #[trigger] name_at(b, t, shs[i].name_idx as int) is None {
                    None
                } else {
                    match spec_programs(b, h) {
                        None => None,
                        Some(phs) => Some(
                            ElfImageView {
                                big_endian: h.big_endian,
                                names: Seq::new(shs.len(), |i: int| name_at(b, t, shs[i].name_idx as int)->Some_0),
                                sections: shs,
                                programs: phs,
                            },
                        ),
                    }
                }
            },
        },
    }
}

/// The 16-bit field at `off`.
fn read16(b: &Vec<u8>, off: usize, big: bool) -> (r: u16)
    requires
        off + 2 <= b@.len(),
    ensures
        r == rd16(b@, off as int, big),
{
    let _len = b.len();
    let (x0, x1) = if big { (b[off] as u16, b[off + 1] as u16) } else { (b[off + 1] as u16, b[off] as u16) };
    assert(x0 * 0x100 + x1 <= 0xffff) by (nonlinear_arith)
        requires
            x0 <= 0xff,
            x1 <= 0xff,
    ;
    x0 * 0x100 + x1
}

/// The 32-bit field at `off`.
fn read32(b: &Vec<u8>, off: usize, big: bool) -> (r: u32)
    requires
        off + 4 <= b@.len(),
    ensures
        r == rd32(b@, off as int, big),
{
    let _len = b.len();
    let (x0, x1, x2, x3) = if big {
        (b[off] as u32, b[off + 1] as u32, b[off + 2] as u32, b[off + 3] as u32)
    } else {
        (b[off + 3] as u32, b[off + 2] as u32, b[off + 1] as u32, b[off] as u32)
    };
    assert(x0 * 0x1000000 + x1 * 0x10000 + x2 * 0x100 + x3 <= 0xffff_ffff) by (nonlinear_arith)
        requires
            x0 <= 0xff,
            x1 <= 0xff,
            x2 <= 0xff,
            x3 <= 0xff,
    ;
    x0 * 0x1000000 + x1 * 0x10000 + x2 * 0x100 + x3
}

/// The file header, where it is one.
pub fn parse_elf_header32(b: &Vec<u8>) -> (r: Result<ElfHeader32, EmuError>)
    ensures
        r matches Ok(h) ==> spec_header(b@) == Some(h),
        r is Err ==> spec_header(b@) is None && r == Err::<ElfHeader32, EmuError>(EmuError::InvalidElf),
{
    if (b.len() as u64) < ELF_HEADER_SIZE || b[0] != 0x7f || b[1] != 0x45 || b[2] != 0x4c || b[3] != 0x46
        || b[4] != 1 || !(b[5] == 1 || b[5] == 2) {
        return Err(EmuError::InvalidElf);
    }
    let big = b[5] == 2;
    Ok(
        ElfHeader32 {
            big_endian: big,
            phoff: read32(b, 28, big),
            shoff: read32(b, 32, big),
            phnum: read16(b, 44, big),
            shnum: read16(b, 48, big),
            shstrndx: read16(b, 50, big),
        },
    )
}

/// The section header table that the header `h` describes.
pub fn parse_section_header_table32(b: &Vec<u8>, h: &ElfHeader32) -> (r: Result<Vec<SectionHeader32>, EmuError>)
    ensures
        r matches Ok(v) ==> spec_sections(b@, *h) == Some(v@),
        r is Err ==> spec_sections(b@, *h) is None && r == Err::<Vec<SectionHeader32>, EmuError>(EmuError::InvalidElf),
{
    let off = h.shoff as u64;
    let n = h.shnum as u64;
    if off > b.len() as u64 || off + n * SECTION_HEADER_SIZE > b.len() as u64 {
        return Err(EmuError::InvalidElf);
    }
    let mut v: Vec<SectionHeader32> = Vec::new();
    let mut i: u64 = 0;
    while i < n
        invariant
            i <= n,
            n == h.shnum,
            off == h.shoff,
            off + n * SECTION_HEADER_SIZE <= b@.len(),
            b@.len() <= usize::MAX,
            v@.len() == i,
            forall|j: int| 0 <= j < i ==> #[trigger] v@[j] == spec_section(b@, off + j * SECTION_HEADER_SIZE, h.big_endian),
        decreases n - i,
    {
        assert(off + i * SECTION_HEADER_SIZE + SECTION_HEADER_SIZE <= off + n * SECTION_HEADER_SIZE) by (nonlinear_arith)
            requires
                i < n,
        ;
        let o = (off + i * SECTION_HEADER_SIZE) as usize;
        let big = h.big_endian;
        v.push(
            SectionHeader32 {
                name_idx: read32(b, o, big),
                ty: read32(b, o + 4, big),
                addr: read32(b, o + 12, big),
                offset: read32(b, o + 16, big),
                size: read32(b, o + 20, big),
                link: read32(b, o + 24, big),
                entry_size: read32(b, o + 36, big),
            },
        );
        i = i + 1;
    }
    assert(v@ =~= Seq::new(h.shnum as nat, |j: int| spec_section(b@, h.shoff + j * SECTION_HEADER_SIZE, h.big_endian)));
    Ok(v)
}

/// The program header table that the header `h` describes.
pub fn parse_program_header_table32(b: &Vec<u8>, h: &ElfHeader32) -> (r: Result<Vec<ProgramHeader32>, EmuError>)
    ensures
        r matches Ok(v) ==> spec_programs(b@, *h) == Some(v@),
        r is Err ==> spec_programs(b@, *h) is None && r == Err::<Vec<ProgramHeader32>, EmuError>(EmuError::InvalidElf),
{
    let off = h.phoff as u64;
    let n = h.phnum as u64;
    if off > b.len() as u64 || off + n * PROGRAM_HEADER_SIZE > b.len() as u64 {
        return Err(EmuError::InvalidElf);
    }
    let mut v: Vec<ProgramHeader32> = Vec::new();
    let mut i: u64 = 0;
    while i < n
        invariant
            i <= n,
            n == h.phnum,
            off == h.phoff,
            off + n * PROGRAM_HEADER_SIZE <= b@.len(),
            b@.len() <= usize::MAX,
            v@.len() == i,
            forall|j: int| 0 <= j < i ==> #[trigger] v@[j] == spec_program(b@, off + j * PROGRAM_HEADER_SIZE, h.big_endian),
        decreases n - i,
    {
        assert(off + i * PROGRAM_HEADER_SIZE + PROGRAM_HEADER_SIZE <= off + n * PROGRAM_HEADER_SIZE) by (nonlinear_arith)
            requires
                i < n,
        ;
        let o = (off + i * PROGRAM_HEADER_SIZE) as usize;
        let big = h.big_endian;
        v.push(
            ProgramHeader32 {
                ty: read32(b, o, big),
                offset: read32(b, o + 4, big),
                virtual_addr: read32(b, o + 8, big),
                physical_addr: read32(b, o + 12, big),
                size_in_file: read32(b, o + 16, big),
                size_in_mem: read32(b, o + 20, big),
            },
        );
        i = i + 1;
    }
    assert(v@ =~= Seq::new(h.phnum as nat, |j: int| spec_program(b@, h.phoff + j * PROGRAM_HEADER_SIZE, h.big_endian)));
    Ok(v)
}

/// The NUL-terminated string from `i` is the run of non-NUL bytes before
/// the first NUL.
proof fn lemma_cstr(b: Seq<u8>, i: int, j: int)
    requires
        0 <= i <= j < b.len(),
        b[j] == 0,
        forall|k: int| i <= k < j ==> b[k] != 0,
    ensures
        cstr_from(b, i) == Some(b.subrange(i, j)),
    decreases j - i,
{
    if i < j {
        lemma_cstr(b, i + 1, j);
        assert(seq![b[i]] + b.subrange(i + 1, j) =~= b.subrange(i, j));
    } else {
        assert(b.subrange(i, j) =~= Seq::<u8>::empty());
    }
}

/// Without a NUL from `i` to the end there is no string.
proof fn lemma_cstr_none(b: Seq<u8>, i: int)
    requires
        0 <= i,
        forall|k: int| i <= k < b.len() ==> b[k] != 0,
    ensures
        cstr_from(b, i) is None,
    decreases b.len() - i,
{
    if i < b.len() {
        lemma_cstr_none(b, i + 1);
    }
}

/// Entry `idx` of the string table at `table`, where there is one.
pub fn parse_string_table_entry(b: &Vec<u8>, table: u64, idx: u64) -> (r: Option<Vec<u8>>)
    ensures
        r matches Some(s) ==> name_at(b@, table as int, idx as int) == Some(s@),
        r is None ==> name_at(b@, table as int, idx as int) is None,
{
    let len = b.len();
    if table > len as u64 || idx > len as u64 - table {
        return None;
    }
    let start = (table + idx) as usize;
    let mut j = start;
    while j < len && b[j] != 0
        invariant
            start <= j <= len,
            len == b@.len(),
            forall|k: int| start <= k < j ==> b@[k] != 0,
        decreases len - j,
    {
        j = j + 1;
    }
    if j >= len {
        proof {
            lemma_cstr_none(b@, start as int);
        }
        return None;
    }
    proof {
        lemma_cstr(b@, start as int, j as int);
    }
    let mut s: Vec<u8> = Vec::new();
    let mut k = start;
    while k < j
        invariant
            start <= k <= j < len,
            len == b@.len(),
            s@ == b@.subrange(start as int, k as int),
        decreases j - k,
    {
        s.push(b[k]);
        proof {
            assert(s@ =~= b@.subrange(start as int, k + 1));
        }
        k = k + 1;
    }
    Some(s)
}

/// Parses the headers and section names of an ELF32 file.
pub fn parse_elf(b: &Vec<u8>) -> (r: Result<ElfImage, EmuError>)
    ensures
        r matches Ok(img) ==> spec_parse_elf(b@) == Some(img@),
        r is Err ==> spec_parse_elf(b@) is None && r == Err::<ElfImage, EmuError>(EmuError::InvalidElf),
{
    let h = match parse_elf_header32(b) {
        Ok(h) => h,
        Err(e) => return Err(e),
    };
    let sections = match parse_section_header_table32(b, &h) {
        Ok(s) => s,
        Err(e) => return Err(e),
    };
    if h.shstrndx as usize >= sections.len() {
        return Err(EmuError::InvalidElf);
    }
    let table = sections[h.shstrndx as usize].offset as u64;
    let mut names: Vec<Vec<u8>> = Vec::new();
    let mut i: usize = 0;
    while i < sections.len()
        invariant
            i <= sections@.len(),
            spec_header(b@) == Some(h),
            spec_sections(b@, h) == Some(sections@),
            h.shstrndx < sections@.len(),
            table == sections@[h.shstrndx as int].offset,
            names@.len() == i,
            forall|j: int| 0 <= j < i ==> #[trigger] name_at(b@, table as int, sections@[j].name_idx as int) == Some(names@[j]@),
        decreases sections@.len() - i,
    {
        let n = match parse_string_table_entry(b, table, sections[i].name_idx as u64) {
            Some(n) => n,
            None => {
                assert(name_at(b@, table as int, sections@[i as int].name_idx as int) is None);
                return Err(EmuError::InvalidElf);
            },
        };
        names.push(n);
        i = i + 1;
    }
    let programs = match parse_program_header_table32(b, &h) {
        Ok(p) => p,
        Err(e) => return Err(e),
    };
    let img = ElfImage { big_endian: h.big_endian, names, sections, programs };
    assert(img@.names =~= Seq::new(
        sections@.len(),
        |j: int| name_at(b@, table as int, sections@[j].name_idx as int)->Some_0,
    ));
    Ok(img)
}

/// `mem` with `bytes` stored from address `base` upwards.
pub open spec fn store_bytes(mem: Map<u32, u8>, base: int, bytes: Seq<u8>) -> Map<u32, u8>
    decreases bytes.len(),
{
    if bytes.len() == 0 {
        mem
    } else {
        store_bytes(mem, base, bytes.drop_last()).insert((base + bytes.len() - 1) as u32, bytes.last())
    }
}

/// The bus address of DRAM index `i`.
pub open spec fn dram_addr(i: int) -> int {
    AREA2_START_ADDR + i
}

/// The four bytes of `x`, most significant first.
pub open spec fn be_bytes(x: u32) -> Seq<u8> {
    seq![(x / 0x1000000) as u8, (x / 0x10000 % 0x100) as u8, (x / 0x100 % 0x100) as u8, (x % 0x100) as u8]
}

/// The big-endian long word at address `a`.
pub open spec fn mem_be32(mem: Map<u32, u8>, a: int) -> int {
    mem[a as u32] * 0x1000000 + mem[(a + 1) as u32] * 0x10000 + mem[(a + 2) as u32] * 0x100 + mem[(a + 3) as u32]
}

/// Storing `bytes` from DRAM index `start` one by one: where the DRAM ends
/// first, the bytes before its end are stored and the store fails.
pub open spec fn store_dram_bytes(mem: Map<u32, u8>, start: int, bytes: Seq<u8>) -> (Map<u32, u8>, Result<(), EmuError>) {
    if bytes.len() == 0 {
        (mem, Ok(()))
    } else if start + bytes.len() <= AREA2_SIZE {
        (store_bytes(mem, dram_addr(start), bytes), Ok(()))
    } else if start >= AREA2_SIZE {
        (mem, Err(EmuError::InvalidElf))
    } else {
        (store_bytes(mem, dram_addr(start), bytes.take(AREA2_SIZE - start)), Err(EmuError::InvalidElf))
    }
}

/// Loading a segment: a loadable segment is copied from the file to its
/// virtual address above the program start, where both ranges exist.
pub open spec fn segment_effect(v: CpuView, b: Seq<u8>, ph: ProgramHeader32) -> (CpuView, Result<(), EmuError>) {
    if ph.ty != PT_LOAD {
        (v, Ok(()))
    } else if ph.virtual_addr + ph.size_in_file > u32::MAX || ph.offset + ph.size_in_file > u32::MAX
        || PROGRAM_DRAM_OFFSET + ph.virtual_addr + ph.size_in_file > AREA2_SIZE || ph.offset
        + ph.size_in_file > b.len() {
        (v, Err(EmuError::InvalidElf))
    } else {
        (
            CpuView {
                mem: store_bytes(
                    v.mem,
                    dram_addr(PROGRAM_DRAM_OFFSET + ph.virtual_addr),
                    b.subrange(ph.offset as int, ph.offset + ph.size_in_file),
                ),
                ..v
            },
            Ok(()),
        )
    }
}

/// Loading the segments from the `i`-th on, stopping at the first failure.
pub open spec fn segments_from(v: CpuView, b: Seq<u8>, phs: Seq<ProgramHeader32>, i: int) -> (CpuView, Result<(), EmuError>)
    decreases phs.len() - i,
{
    if i < 0 || i >= phs.len() {
        (v, Ok(()))
    } else {
        let (w, r) = segment_effect(v, b, phs[i]);
        if r is Err {
            (w, r)
        } else {
            segments_from(w, b, phs, i + 1)
        }
    }
}

/// Relocating the `i`-th entry on of a global offset table at `addr` with
/// `n` entries: each long word gets the program start added.
pub open spec fn got_from(v: CpuView, addr: u32, n: int, i: int) -> (CpuView, Result<(), EmuError>)
    decreases n - i,
{
    if i < 0 || i >= n {
        (v, Ok(()))
    } else if addr + 4 * i > u32::MAX || PROGRAM_DRAM_OFFSET + addr + 4 * i + 3 >= AREA2_SIZE {
        (v, Err(EmuError::InvalidElf))
    } else {
        let a = dram_addr(PROGRAM_DRAM_OFFSET + addr + 4 * i);
        let x = mem_be32(v.mem, a) + PROGRAM_START_ADDR;
        if x > u32::MAX {
            (v, Err(EmuError::InvalidElf))
        } else {
            got_from(CpuView { mem: store_bytes(v.mem, a, be_bytes(x as u32)), ..v }, addr, n, i + 1)
        }
    }
}

/// What the `.got` section asks: ER5 points at the table, whose entries are
/// relocated to the program start.
pub open spec fn got_effect(v: CpuView, sh: SectionHeader32) -> (CpuView, Result<(), EmuError>) {
    if sh.addr + PROGRAM_START_ADDR > u32::MAX {
        (v, Err(EmuError::InvalidElf))
    } else {
        got_from(
            CpuView { er: v.er.update(5, (sh.addr + PROGRAM_START_ADDR) as u32), ..v },
            sh.addr,
            (sh.size / 4) as int,
            0,
        )
    }
}

/// The name under which the program sees itself as its first argument.
pub open spec fn program_name() -> Seq<u8> {
    seq![0x70u8, 0x72, 0x6f, 0x67, 0x2e, 0x65, 0x6c, 0x66]
}

/// Storing the arguments from the `j`-th on: the pointer to each at `argp`
/// and its NUL-terminated bytes at `a`.
pub open spec fn args_from(v: CpuView, list: Seq<Seq<u8>>, argp: int, a: int, j: int) -> (CpuView, Result<(), EmuError>)
    decreases list.len() - j,
{
    if j < 0 || j >= list.len() {
        (v, Ok(()))
    } else if argp - AREA2_START_ADDR + 4 > AREA2_SIZE {
        (v, Err(EmuError::InvalidElf))
    } else {
        let mem1 = store_bytes(v.mem, argp, be_bytes((a % 0x1_0000_0000) as u32));
        let (mem2, r) = store_dram_bytes(mem1, a - AREA2_START_ADDR, list[j].push(0));
        if r is Err {
            (CpuView { mem: mem2, ..v }, r)
        } else {
            args_from(CpuView { mem: mem2, ..v }, list, argp + 4, a + list[j].len() + 1, j + 1)
        }
    }
}

/// What the `.stack` section asks: the stack pointer goes above the program
/// and the stack, word aligned, less 8; above it and the task control block
/// lie the argument vector (ER1) and the argument strings; ER0 counts the
/// arguments, the program's name first.
pub open spec fn stack_effect(v: CpuView, sh: SectionHeader32, phs: Seq<ProgramHeader32>, args: Seq<Seq<u8>>) -> (CpuView, Result<(), EmuError>) {
    if phs.len() == 0 || phs.last().size_in_mem + phs.last().physical_addr > u32::MAX {
        (v, Err(EmuError::InvalidElf))
    } else {
        let a1 = (PROGRAM_START_ADDR + phs.last().size_in_mem + phs.last().physical_addr + sh.addr + 3) / 4 * 4;
        let sp = a1 % 0x1_0000_0000;
        if sp < 8 {
            (v, Err(EmuError::InvalidElf))
        } else {
            let a2 = (a1 + SIZE_OF_TCB + 3) / 4 * 4;
            let list = seq![program_name()] + args;
            let v1 = CpuView {
                er: v.er.update(7, (sp - 8) as u32).update(0, list.len() as u32).update(1, (a2 % 0x1_0000_0000) as u32),
                ..v
            };
            args_from(v1, list, a2, a2 + 4 * (list.len() + 1), 0)
        }
    }
}

/// The name of the exit routine.
pub open spec fn exit_name() -> Seq<u8> {
    seq![0x5fu8, 0x5f, 0x5f, 0x65, 0x78, 0x69, 0x74]
}

/// Recording the exit routine from the `i`-th symbol on: each symbol named
/// `___exit` sets it, relocated to the program start.
pub open spec fn exits_from(v: CpuView, b: Seq<u8>, names: int, syms: Seq<Symbol32>, i: int) -> (CpuView, Result<(), EmuError>)
    decreases syms.len() - i,
{
    if i < 0 || i >= syms.len() {
        (v, Ok(()))
    } else if cstr_from(b, names + syms[i].name_idx) == Some(exit_name()) {
        if syms[i].value + PROGRAM_START_ADDR > u32::MAX {
            (v, Err(EmuError::InvalidElf))
        } else {
            exits_from(CpuView { exit_addr: (syms[i].value + PROGRAM_START_ADDR) as u32, ..v }, b, names, syms, i + 1)
        }
    } else {
        exits_from(v, b, names, syms, i + 1)
    }
}

/// The symbols of the table that `sh` describes.
pub open spec fn spec_symbols(b: Seq<u8>, sh: SectionHeader32, big: bool) -> Seq<Symbol32> {
    Seq::new((sh.size / sh.entry_size) as nat, |i: int| spec_symbol(b, sh.offset + i * SYMBOL_SIZE, big))
}

/// What the `.symtab` section asks: the address of `___exit`; the names
/// come from the string table of the section that `link` designates.
pub open spec fn symtab_effect(v: CpuView, b: Seq<u8>, sh: SectionHeader32, shs: Seq<SectionHeader32>, big: bool) -> (CpuView, Result<(), EmuError>) {
    if sh.entry_size == 0 || !table_fits(b, sh.offset as int, (sh.size / sh.entry_size) as int, SYMBOL_SIZE as int)
        || sh.link >= shs.len() || shs[sh.link as int].offset > b.len() {
        (v, Err(EmuError::InvalidElf))
    } else {
        let syms = spec_symbols(b, sh, big);
        let t = shs[sh.link as int].offset as int;
        if exists|i: int| 0 <= i < syms.len() && t + (#[trigger] syms[i]).name_idx > b.len() {
            (v, Err(EmuError::InvalidElf))
        } else {
            exits_from(v, b, t, syms, 0)
        }
    }
}

/// The name of the global offset table section.
pub open spec fn got_name() -> Seq<u8> {
    seq![0x2eu8, 0x67, 0x6f, 0x74]
}

/// The name of the stack section.
pub open spec fn stack_name() -> Seq<u8> {
    seq![0x2eu8, 0x73, 0x74, 0x61, 0x63, 0x6b]
}

/// The name of the symbol table section.
pub open spec fn symtab_name() -> Seq<u8> {
    seq![0x2eu8, 0x73, 0x79, 0x6d, 0x74, 0x61, 0x62]
}

/// What the `i`-th section asks of the loader.
pub open spec fn section_effect(v: CpuView, b: Seq<u8>, img: ElfImageView, args: Seq<Seq<u8>>, i: int) -> (CpuView, Result<(), EmuError>) {
    let name = img.names[i];
    let sh = img.sections[i];
    if name == got_name() {
        got_effect(v, sh)
    } else if name == stack_name() {
        stack_effect(v, sh, img.programs, args)
    } else if name == symtab_name() {
        symtab_effect(v, b, sh, img.sections, img.big_endian)
    } else {
        (v, Ok(()))
    }
}

/// The sections from the `i`-th on, stopping at the first failure.
pub open spec fn sections_from(v: CpuView, b: Seq<u8>, img: ElfImageView, args: Seq<Seq<u8>>, i: int) -> (CpuView, Result<(), EmuError>)
    decreases img.sections.len() - i,
{
    if i < 0 || i >= img.sections.len() || i >= img.names.len() {
        (v, Ok(()))
    } else {
        let (w, r) = section_effect(v, b, img, args, i);
        if r is Err {
            (w, r)
        } else {
            sections_from(w, b, img, args, i + 1)
        }
    }
}

/// Installing a parsed program: ER2 holds its entry, its segments are
/// loaded, then its sections are worked through in order.
pub open spec fn install_effect(v: CpuView, b: Seq<u8>, img: ElfImageView, args: Seq<Seq<u8>>) -> (CpuView, Result<(), EmuError>) {
    let v1 = CpuView { er: v.er.update(2, PROGRAM_START_ADDR), ..v };
    let (v2, r2) = segments_from(v1, b, img.programs, 0);
    if r2 is Err {
        (v2, r2)
    } else {
        sections_from(v2, b, img, args, 0)
    }
}

/// Loading the file `b` with the arguments `args`: a file that does not
/// parse changes nothing.
pub open spec fn load_effect(v: CpuView, b: Seq<u8>, args: Seq<Seq<u8>>) -> (CpuView, Result<(), EmuError>) {
    match spec_parse_elf(b) {
        None => (v, Err(EmuError::InvalidElf)),
        Some(img) => install_effect(v, b, img, args),
    }
}

/// Storing one more byte extends the store by one address.
proof fn lemma_store_bytes_step(m: Map<u32, u8>, base: int, s: Seq<u8>, k: int)
    requires
        0 <= k < s.len(),
    ensures
        store_bytes(m, base, s.take(k + 1)) == store_bytes(m, base, s.take(k)).insert((base + k) as u32, s[k]),
{
    assert(s.take(k + 1).drop_last() =~= s.take(k));
}

/// Storing a NUL-terminated string byte by byte is storing its bytes, then
/// its terminator.
proof fn lemma_store_push(m: Map<u32, u8>, start: int, s: Seq<u8>)
    requires
        0 <= start,
    ensures
        store_dram_bytes(m, start, s.push(0)) == ({
            let (m1, r1) = store_dram_bytes(m, start, s);
            if r1 is Err {
                (m1, r1)
            } else if start + s.len() < AREA2_SIZE {
                (m1.insert(dram_addr(start + s.len()) as u32, 0), Ok(()))
            } else {
                (m1, Err(EmuError::InvalidElf))
            }
        }),
{
    let t = s.push(0);
    assert(t.drop_last() =~= s);
    if start + s.len() > AREA2_SIZE && start < AREA2_SIZE {
        assert(t.take(AREA2_SIZE - start) =~= s.take(AREA2_SIZE - start));
    }
    if start + s.len() == AREA2_SIZE {
        assert(t.take(AREA2_SIZE - start) =~= s);
    }
}

/// Whether `name` is `expected`.
fn is_name(name: &Vec<u8>, expected: &Vec<u8>) -> (r: bool)
    ensures
        r == (name@ == expected@),
{
    if name.len() != expected.len() {
        return false;
    }
    let mut i: usize = 0;
    while i < name.len()
        invariant
            i <= name@.len(),
            name@.len() == expected@.len(),
            forall|k: int| 0 <= k < i ==> name@[k] == expected@[k],
        decreases name@.len() - i,
    {
        if name[i] != expected[i] {
            return false;
        }
        i = i + 1;
    }
    assert(name@ =~= expected@);
    true
}

/// The characters of the Unicode property White_Space.
pub open spec fn is_white_space(c: char) -> bool {
    let u = c as u32;
    ||| 0x09 <= u <= 0x0d
    ||| u == 0x20 || u == 0x85 || u == 0xa0 || u == 0x1680
    ||| 0x2000 <= u <= 0x200a
    ||| u == 0x2028 || u == 0x2029 || u == 0x202f || u == 0x205f || u == 0x3000
}

/// The number of characters before the first white space of `s`.
pub open spec fn word_len(s: Seq<char>) -> nat
    decreases s.len(),
{
    if s.len() == 0 || is_white_space(s[0]) {
        0
    } else {
        1 + word_len(s.drop_first())
    }
}

/// The maximal runs of characters of `s` that hold no white space, in order.
pub open spec fn words(s: Seq<char>) -> Seq<Seq<char>>
    decreases s.len(),
{
    if s.len() == 0 {
        Seq::empty()
    } else if is_white_space(s[0]) {
        words(s.drop_first())
    } else {
        let n = word_len(s);
        // never the case: a word lies within `s`
        if n > s.len() {
            Seq::empty()
        } else {
            seq![s.take(n as int)] + words(s.skip(n as int))
        }
    }
}

/// The words of `s` that white space separates, each as its UTF-8 bytes.
pub open spec fn whitespace_words(s: Seq<char>) -> Seq<Seq<u8>> {
    words(s).map_values(|w: Seq<char>| vstd::utf8::encode_utf8(w))
}

/// Whether `c` is white space.
fn is_white_space_char(c: char) -> (b: bool)
    ensures
        b == is_white_space(c),
{
    let u = c as u32;
    (0x09 <= u && u <= 0x0d) || u == 0x20 || u == 0x85 || u == 0xa0 || u == 0x1680 || (0x2000 <= u && u
        <= 0x200a) || u == 0x2028 || u == 0x2029 || u == 0x202f || u == 0x205f || u == 0x3000
}

/// A run of `n` characters without white space, ended by white space or by
/// the end of `t`, is the first word of `t`.
proof fn lemma_word_len(t: Seq<char>, n: int)
    requires
        0 <= n <= t.len(),
        forall|k: int| 0 <= k < n ==> !is_white_space(#[trigger] t[k]),
        n == t.len() || is_white_space(t[n]),
    ensures
        word_len(t) == n,
    decreases n,
{
    if n > 0 {
        let u = t.drop_first();
        assert forall|k: int| 0 <= k < n - 1 implies !is_white_space(#[trigger] u[k]) by {
            assert(u[k] == t[k + 1]);
        }
        if n < t.len() {
            assert(u[n - 1] == t[n]);
        }
        lemma_word_len(u, n - 1);
    }
}

/// The words of `s` that white space separates, each as its UTF-8 bytes, in
/// order, as `str::split_whitespace` gives them.
fn split_args(s: &str) -> (r: Vec<Vec<u8>>)
    ensures
        r@.map_values(|w: Vec<u8>| w@) == whitespace_words(s@),
{
    let len = s.unicode_len();
    let mut out: Vec<Vec<u8>> = Vec::new();
    let mut i: usize = 0;
    assert(s@.skip(0) =~= s@);
    while i < len
        invariant
            i <= len,
            len == s@.len(),
            out@.map_values(|w: Vec<u8>| w@) + whitespace_words(s@.skip(i as int)) == whitespace_words(s@),
        decreases len - i,
    {
        let ghost t = s@.skip(i as int);
        let c = s.get_char(i);
        assert(t[0] == c);
        if is_white_space_char(c) {
            assert(t.drop_first() =~= s@.skip(i + 1));
            i = i + 1;
        } else {
            let mut j = i + 1;
            loop
                invariant
                    i < j <= len,
                    len == s@.len(),
                    t == s@.skip(i as int),
                    forall|k: int| 0 <= k < j - i ==> !is_white_space(#[trigger] t[k]),
                ensures
                    i < j <= len,
                    forall|k: int| 0 <= k < j - i ==> !is_white_space(#[trigger] t[k]),
                    j == len || is_white_space(t[j - i]),
                decreases len - j,
            {
                if j >= len {
                    break;
                }
                let cj = s.get_char(j);
                assert(t[j - i] == cj);
                if is_white_space_char(cj) {
                    break;
                }
                j = j + 1;
            }
            proof {
                lemma_word_len(t, j - i);
                assert(t.take(j - i) =~= s@.subrange(i as int, j as int));
                assert(t.skip(j - i) =~= s@.skip(j as int));
            }
            let word = s.substring_char(i, j).as_bytes_vec();
            let ghost before = out@.map_values(|w: Vec<u8>| w@);
            out.push(word);
            proof {
                let rest = whitespace_words(s@.skip(j as int));
                assert(words(t) == seq![s@.subrange(i as int, j as int)] + words(s@.skip(j as int)));
                assert(whitespace_words(t) =~= seq![vstd::utf8::encode_utf8(s@.subrange(i as int, j as int))] + rest);
                assert(out@.map_values(|w: Vec<u8>| w@) =~= before.push(word@));
                assert(before + whitespace_words(t) =~= out@.map_values(|w: Vec<u8>| w@) + rest);
            }
            i = j;
        }
    }
    assert(s@.skip(len as int) =~= Seq::<char>::empty());
    assert(whitespace_words(s@.skip(len as int)) =~= Seq::<Seq<u8>>::empty());
    assert(out@.map_values(|w: Vec<u8>| w@) =~= out@.map_values(|w: Vec<u8>| w@) + whitespace_words(s@.skip(len as int)));
    out
}

impl Cpu {
    /// Stores `value` at DRAM index `i`.
    fn store_dram(&mut self, i: u64, value: u8) -> (r: Result<(), EmuError>)
        requires
            old(self).wf(),
        ensures
            final(self).wf(),
            i < AREA2_SIZE ==> r is Ok && final(self)@ == (CpuView {
                mem: old(self)@.mem.insert(dram_addr(i as int) as u32, value),
                ..old(self)@
            }),
            i >= AREA2_SIZE ==> r == Err::<(), EmuError>(EmuError::InvalidElf) && final(self)@ == old(self)@,
    {
        if i >= AREA2_SIZE as u64 {
            return Err(EmuError::InvalidElf);
        }
        self.bus.write(AREA2_START_ADDR + i as u32, value)
    }

    /// The byte at DRAM index `i`.
    fn load_dram(&self, i: u64) -> (r: u8)
        requires
            self.wf(),
            i < AREA2_SIZE,
        ensures
            r == self@.mem[dram_addr(i as int) as u32],
    {
        self.bus.read(AREA2_START_ADDR + i as u32).unwrap()
    }

    /// Stores the long word `x` big-endian from DRAM index `i`.
    fn store_dram_word(&mut self, i: u64, x: u32) -> (r: Result<(), EmuError>)
        requires
            old(self).wf(),
            i + 4 <= AREA2_SIZE,
        ensures
            final(self).wf(),
            r is Ok,
            final(self)@ == (CpuView { mem: store_bytes(old(self)@.mem, dram_addr(i as int), be_bytes(x)), ..old(self)@ }),
    {
        let ghost bytes = be_bytes(x);
        self.store_dram(i, (x / 0x1000000) as u8).unwrap();
        self.store_dram(i + 1, (x / 0x10000 % 0x100) as u8).unwrap();
        self.store_dram(i + 2, (x / 0x100 % 0x100) as u8).unwrap();
        self.store_dram(i + 3, (x % 0x100) as u8).unwrap();
        proof {
            reveal_with_fuel(store_bytes, 5);
            assert(bytes.drop_last().drop_last().drop_last().drop_last() =~= Seq::<u8>::empty());
        }
        Ok(())
    }

    /// Stores `bytes` from DRAM index `start` one by one, failing where the
    /// DRAM ends.
    fn store_dram_seq(&mut self, start: u64, bytes: &Vec<u8>) -> (r: Result<(), EmuError>)
        requires
            old(self).wf(),
            start <= 0x10_0000_0000,
        ensures
            final(self).wf(),
            (final(self)@.mem, r) == store_dram_bytes(old(self)@.mem, start as int, bytes@),
            final(self)@ == (CpuView { mem: final(self)@.mem, ..old(self)@ }),
    {
        let mut k: usize = 0;
        while k < bytes.len()
            invariant
                self.wf(),
                k <= bytes@.len(),
                start <= 0x10_0000_0000,
                k == 0 || start + k <= AREA2_SIZE,
                self@ == (CpuView { mem: store_bytes(old(self)@.mem, dram_addr(start as int), bytes@.take(k as int)), ..old(self)@ }),
            decreases bytes@.len() - k,
        {
            if start + k as u64 >= AREA2_SIZE as u64 {
                proof {
                    assert(start < AREA2_SIZE ==> bytes@.take(AREA2_SIZE - start) =~= bytes@.take(k as int));
                    assert(bytes@.take(0) =~= Seq::<u8>::empty());
                }
                return Err(EmuError::InvalidElf);
            }
            proof {
                lemma_store_bytes_step(old(self)@.mem, dram_addr(start as int), bytes@, k as int);
            }
            self.store_dram(start + k as u64, bytes[k]).unwrap();
            k = k + 1;
        }
        assert(bytes@.take(bytes@.len() as int) =~= bytes@);
        Ok(())
    }

    /// Loads one segment.
    fn load_segment(&mut self, b: &Vec<u8>, ph: &ProgramHeader32) -> (r: Result<(), EmuError>)
        requires
            old(self).wf(),
        ensures
            final(self).wf(),
            (final(self)@, r) == segment_effect(old(self)@, b@, *ph),
    {
        if ph.ty != PT_LOAD {
            return Ok(());
        }
        let vaddr = ph.virtual_addr as u64;
        let size = ph.size_in_file as u64;
        let off = ph.offset as u64;
        if vaddr + size > u32::MAX as u64 || off + size > u32::MAX as u64 || PROGRAM_DRAM_OFFSET + vaddr + size
            > AREA2_SIZE as u64 || off + size > b.len() as u64 {
            return Err(EmuError::InvalidElf);
        }
        let dst = PROGRAM_DRAM_OFFSET + vaddr;
        let ghost src = b@.subrange(off as int, off + size);
        let ghost m0 = old(self)@.mem;
        let mut k: u64 = 0;
        while k < size
            invariant
                self.wf(),
                k <= size,
                off + size <= b@.len(),
                b@.len() <= usize::MAX,
                dst + size <= AREA2_SIZE,
                src == b@.subrange(off as int, off + size),
                self@ == (CpuView { mem: store_bytes(m0, dram_addr(dst as int), src.take(k as int)), ..old(self)@ }),
            decreases size - k,
        {
            proof {
                lemma_store_bytes_step(m0, dram_addr(dst as int), src, k as int);
            }
            self.store_dram(dst + k, b[(off + k) as usize]).unwrap();
            k = k + 1;
        }
        assert(src.take(size as int) =~= src);
        Ok(())
    }

    /// Relocates the global offset table that `sh` describes.
    fn load_got(&mut self, sh: &SectionHeader32) -> (r: Result<(), EmuError>)
        requires
            old(self).wf(),
        ensures
            final(self).wf(),
            (final(self)@, r) == got_effect(old(self)@, *sh),
    {
        let addr = sh.addr as u64;
        if addr + PROGRAM_START_ADDR as u64 > u32::MAX as u64 {
            return Err(EmuError::InvalidElf);
        }
        self.er[5] = sh.addr + PROGRAM_START_ADDR;
        let ghost v1 = self@;
        assert(v1 == (CpuView { er: old(self)@.er.update(5, (sh.addr + PROGRAM_START_ADDR) as u32), ..old(self)@ }));
        let n = (sh.size / 4) as u64;
        let mut i: u64 = 0;
        while i < n
            invariant
                self.wf(),
                i <= n,
                n == sh.size / 4,
                addr == sh.addr,
                sh.addr + PROGRAM_START_ADDR <= u32::MAX,
                v1 == (CpuView { er: old(self)@.er.update(5, (sh.addr + PROGRAM_START_ADDR) as u32), ..old(self)@ }),
                got_from(self@, sh.addr, n as int, i as int) == got_from(v1, sh.addr, n as int, 0),
            decreases n - i,
        {
            if addr + 4 * i > u32::MAX as u64 || PROGRAM_DRAM_OFFSET + addr + 4 * i + 3 >= AREA2_SIZE as u64 {
                assert(got_from(self@, sh.addr, n as int, i as int) == (self@, Err::<(), EmuError>(EmuError::InvalidElf)));
                return Err(EmuError::InvalidElf);
            }
            let idx = PROGRAM_DRAM_OFFSET + addr + 4 * i;
            let x = (self.load_dram(idx) as u64) * 0x1000000 + (self.load_dram(idx + 1) as u64) * 0x10000
                + (self.load_dram(idx + 2) as u64) * 0x100 + (self.load_dram(idx + 3) as u64)
                + PROGRAM_START_ADDR as u64;
            assert(x == mem_be32(self@.mem, dram_addr(idx as int)) + PROGRAM_START_ADDR);
            if x > u32::MAX as u64 {
                assert(got_from(self@, sh.addr, n as int, i as int) == (self@, Err::<(), EmuError>(EmuError::InvalidElf)));
                return Err(EmuError::InvalidElf);
            }
            self.store_dram_word(idx, x as u32).unwrap();
            i = i + 1;
        }
        Ok(())
    }

    /// Stores the arguments, `name` first and then `words`: the vector of
    /// pointers from `argp0`, the strings from `a0`.
    fn load_args(&mut self, name: &Vec<u8>, words: &Vec<Vec<u8>>, argp0: u64, a0: u64) -> (r: Result<(), EmuError>)
        requires
            old(self).wf(),
            AREA2_START_ADDR <= argp0 <= a0,
            a0 <= 0x4_0000_0000,
            words@.len() < 0x4000_0000,
        ensures
            final(self).wf(),
            (final(self)@, r) == args_from(
                old(self)@,
                seq![name@] + words@.map_values(|w: Vec<u8>| w@),
                argp0 as int,
                a0 as int,
                0,
            ),
    {
        let ghost list = seq![name@] + words@.map_values(|w: Vec<u8>| w@);
        let count = words.len() + 1;
        let mut argp = argp0;
        let mut a = a0;
        let mut j: usize = 0;
        while j < count
            invariant
                self.wf(),
                j <= count,
                count == words@.len() + 1,
                count == list.len(),
                list == seq![name@] + words@.map_values(|w: Vec<u8>| w@),
                AREA2_START_ADDR <= argp,
                AREA2_START_ADDR <= a,
                a0 <= 0x4_0000_0000,
                a <= a0 || a <= AREA2_START_ADDR + AREA2_SIZE,
                argp <= a0 + 4 * j,
                args_from(self@, list, argp as int, a as int, j as int) == args_from(old(self)@, list, argp0 as int, a0 as int, 0),
            decreases count - j,
        {
            if argp - AREA2_START_ADDR as u64 + 4 > AREA2_SIZE as u64 {
                return Err(EmuError::InvalidElf);
            }
            self.store_dram_word(argp - AREA2_START_ADDR as u64, (a % 0x1_0000_0000) as u32).unwrap();
            let w: &Vec<u8> = if j == 0 { name } else { &words[j - 1] };
            assert(list[j as int] == w@);
            let ghost mem1 = self@.mem;
            proof {
                lemma_store_push(mem1, a - AREA2_START_ADDR, w@);
            }
            match self.store_dram_seq(a - AREA2_START_ADDR as u64, w) {
                Ok(_) => {},
                Err(e) => return Err(e),
            }
            let end = a - AREA2_START_ADDR as u64 + w.len() as u64;
            match self.store_dram(end, 0) {
                Ok(_) => {},
                Err(e) => return Err(e),
            }
            argp = argp + 4;
            a = a + w.len() as u64 + 1;
            j = j + 1;
        }
        Ok(())
    }

    /// Sets up the stack and the arguments as the `.stack` section `sh` asks.
    #[verifier::rlimit(50)]
    fn load_stack(&mut self, sh: &SectionHeader32, programs: &Vec<ProgramHeader32>, words: &Vec<Vec<u8>>) -> (r: Result<(), EmuError>)
        requires
            old(self).wf(),
            words@.len() < 0x4000_0000,
        ensures
            final(self).wf(),
            (final(self)@, r) == stack_effect(old(self)@, *sh, programs@, words@.map_values(|w: Vec<u8>| w@)),
    {
        if programs.len() == 0 {
            return Err(EmuError::InvalidElf);
        }
        let last = programs[programs.len() - 1];
        let program_size = last.size_in_mem as u64 + last.physical_addr as u64;
        if program_size > u32::MAX as u64 {
            return Err(EmuError::InvalidElf);
        }
        let a1 = (PROGRAM_START_ADDR as u64 + program_size + sh.addr as u64 + 3) / 4 * 4;
        let sp = a1 % 0x1_0000_0000;
        if sp < 8 {
            return Err(EmuError::InvalidElf);
        }
        let a2 = (a1 + SIZE_OF_TCB + 3) / 4 * 4;
        let count = words.len() as u64 + 1;
        self.er[7] = (sp - 8) as u32;
        self.er[0] = count as u32;
        self.er[1] = (a2 % 0x1_0000_0000) as u32;
        let name: Vec<u8> = vec![0x70u8, 0x72, 0x6f, 0x67, 0x2e, 0x65, 0x6c, 0x66];
        assert(name@ =~= program_name());
        let ghost list = seq![program_name()] + words@.map_values(|w: Vec<u8>| w@);
        assert(list.len() == count);
        self.load_args(&name, words, a2, a2 + 4 * (count + 1))
    }

    /// Records the exit routine from the `.symtab` section `sh`.
    fn load_symtab(&mut self, b: &Vec<u8>, sh: &SectionHeader32, sections: &Vec<SectionHeader32>, big: bool) -> (r: Result<(), EmuError>)
        requires
            old(self).wf(),
        ensures
            final(self).wf(),
            (final(self)@, r) == symtab_effect(old(self)@, b@, *sh, sections@, big),
    {
        let len = b.len() as u64;
        if sh.entry_size == 0 {
            return Err(EmuError::InvalidElf);
        }
        let n = (sh.size / sh.entry_size) as u64;
        let off = sh.offset as u64;
        if off > len || off + n * SYMBOL_SIZE > len {
            return Err(EmuError::InvalidElf);
        }
        if sh.link as usize >= sections.len() {
            return Err(EmuError::InvalidElf);
        }
        let t = sections[sh.link as usize].offset as u64;
        if t > len {
            return Err(EmuError::InvalidElf);
        }
        let ghost syms = spec_symbols(b@, *sh, big);
        let mut names: Vec<u32> = Vec::new();
        let mut values: Vec<u32> = Vec::new();
        let mut i: u64 = 0;
        while i < n
            invariant
                i <= n,
                n == sh.size / sh.entry_size,
                sh.entry_size != 0,
                off == sh.offset,
                off + n * SYMBOL_SIZE <= b@.len(),
                b@.len() <= usize::MAX,
                syms == spec_symbols(b@, *sh, big),
                names@.len() == i && values@.len() == i,
                forall|k: int| 0 <= k < i ==> #[trigger] names@[k] == syms[k].name_idx,
                forall|k: int| 0 <= k < i ==> #[trigger] values@[k] == syms[k].value,
            decreases n - i,
        {
            assert(off + i * SYMBOL_SIZE + SYMBOL_SIZE <= off + n * SYMBOL_SIZE) by (nonlinear_arith)
                requires
                    i < n,
            ;
            let o = (off + i * SYMBOL_SIZE) as usize;
            names.push(read32(b, o, big));
            values.push(read32(b, o + 4, big));
            i = i + 1;
        }
        let mut k: usize = 0;
        while k < names.len()
            invariant
                self.wf(),
                self@ == old(self)@,
                t <= u32::MAX,
                t <= b@.len(),
                t == sections@[sh.link as int].offset,
                sh.entry_size != 0,
                sh.link < sections@.len(),
                table_fits(b@, sh.offset as int, (sh.size / sh.entry_size) as int, SYMBOL_SIZE as int),
                syms == spec_symbols(b@, *sh, big),
                names@.len() == syms.len(),
                forall|m: int| 0 <= m < names@.len() ==> #[trigger] names@[m] == syms[m].name_idx,
                forall|m: int| 0 <= m < k ==> t + (#[trigger] syms[m]).name_idx <= b@.len(),
                len == b@.len(),
            decreases names@.len() - k,
        {
            if t + names[k] as u64 > len {
                assert(t + syms[k as int].name_idx > b@.len());
                return Err(EmuError::InvalidElf);
            }
            k = k + 1;
        }
        let exit: Vec<u8> = vec![0x5fu8, 0x5f, 0x5f, 0x65, 0x78, 0x69, 0x74];
        assert(exit@ =~= exit_name());
        let ghost v0 = self@;
        assert(symtab_effect(old(self)@, b@, *sh, sections@, big) == exits_from(v0, b@, t as int, syms, 0));
        let mut k: usize = 0;
        while k < names.len()
            invariant
                self.wf(),
                k <= names@.len(),
                names@.len() == syms.len() && values@.len() == syms.len(),
                forall|m: int| 0 <= m < names@.len() ==> #[trigger] names@[m] == syms[m].name_idx && values@[m] == syms[m].value,
                forall|m: int| 0 <= m < names@.len() ==> t + (#[trigger] syms[m]).name_idx <= b@.len(),
                t <= b@.len(),
                exit@ == exit_name(),
                symtab_effect(old(self)@, b@, *sh, sections@, big) == exits_from(v0, b@, t as int, syms, 0),
                exits_from(self@, b@, t as int, syms, k as int) == exits_from(v0, b@, t as int, syms, 0),
            decreases names@.len() - k,
        {
            assert(t + syms[k as int].name_idx <= b@.len());
            let is_exit = match parse_string_table_entry(b, t, names[k] as u64) {
                Some(name) => is_name(&name, &exit),
                None => false,
            };
            if is_exit {
                if values[k] as u64 + PROGRAM_START_ADDR as u64 > u32::MAX as u64 {
                    return Err(EmuError::InvalidElf);
                }
                self.exit_addr = values[k] + PROGRAM_START_ADDR;
            }
            k = k + 1;
        }
        Ok(())
    }

    /// Installs a parsed program.
    fn install(&mut self, b: &Vec<u8>, img: &ElfImage, words: &Vec<Vec<u8>>) -> (r: Result<(), EmuError>)
        requires
            old(self).wf(),
            words@.len() < 0x4000_0000,
            img@.names.len() == img@.sections.len(),
        ensures
            final(self).wf(),
            (final(self)@, r) == install_effect(old(self)@, b@, img@, words@.map_values(|w: Vec<u8>| w@)),
    {
        let ghost args = words@.map_values(|w: Vec<u8>| w@);
        self.er[2] = PROGRAM_START_ADDR;
        let ghost v1 = self@;
        let mut i: usize = 0;
        while i < img.programs.len()
            invariant
                self.wf(),
                i <= img.programs@.len(),
                v1 == (CpuView { er: old(self)@.er.update(2, PROGRAM_START_ADDR), ..old(self)@ }),
                segments_from(self@, b@, img.programs@, i as int) == segments_from(v1, b@, img.programs@, 0),
            decreases img.programs@.len() - i,
        {
            match self.load_segment(b, &img.programs[i]) {
                Ok(_) => {},
                Err(e) => return Err(e),
            }
            i = i + 1;
        }
        let got: Vec<u8> = vec![0x2eu8, 0x67, 0x6f, 0x74];
        let stack: Vec<u8> = vec![0x2eu8, 0x73, 0x74, 0x61, 0x63, 0x6b];
        let symtab: Vec<u8> = vec![0x2eu8, 0x73, 0x79, 0x6d, 0x74, 0x61, 0x62];
        assert(got@ =~= got_name() && stack@ =~= stack_name() && symtab@ =~= symtab_name());
        let ghost v2 = self@;
        assert(install_effect(old(self)@, b@, img@, args) == sections_from(v2, b@, img@, args, 0));
        let mut i: usize = 0;
        while i < img.sections.len()
            invariant
                self.wf(),
                i <= img.sections@.len(),
                img@.names.len() == img@.sections.len(),
                words@.len() < 0x4000_0000,
                args == words@.map_values(|w: Vec<u8>| w@),
                got@ == got_name() && stack@ == stack_name() && symtab@ == symtab_name(),
                install_effect(old(self)@, b@, img@, args) == sections_from(v2, b@, img@, args, 0),
                sections_from(self@, b@, img@, args, i as int) == sections_from(v2, b@, img@, args, 0),
            decreases img.sections@.len() - i,
        {
            let name = &img.names[i];
            assert(img@.names[i as int] == name@);
            let r = if is_name(name, &got) {
                self.load_got(&img.sections[i])
            } else if is_name(name, &stack) {
                self.load_stack(&img.sections[i], &img.programs, words)
            } else if is_name(name, &symtab) {
                self.load_symtab(b, &img.sections[i], &img.sections, img.big_endian)
            } else {
                Ok(())
            };
            match r {
                Ok(_) => {},
                Err(e) => return Err(e),
            }
            i = i + 1;
        }
        Ok(())
    }
}

/// Loads the ELF32 program `elf` into `cpu`, with the arguments `words`
/// (the program's name is added before them).
pub fn load_words(elf: &Vec<u8>, cpu: &mut Cpu, words: &Vec<Vec<u8>>) -> (r: Result<(), EmuError>)
    requires
        old(cpu).wf(),
        words@.len() < 0x4000_0000,
    ensures
        final(cpu).wf(),
        (final(cpu)@, r) == load_effect(old(cpu)@, elf@, words@.map_values(|w: Vec<u8>| w@)),
{
    let img = match parse_elf(elf) {
        Ok(img) => img,
        Err(e) => return Err(e),
    };
    cpu.install(elf, &img, words)
}

/// Loads the ELF32 program `elf` into `cpu`, with the whitespace-separated
/// arguments in `args`; an argument list of 2^30 words or more is refused.
pub fn load(elf: &Vec<u8>, cpu: &mut Cpu, args: &str) -> (r: Result<(), EmuError>)
    requires
        old(cpu).wf(),
    ensures
        final(cpu).wf(),
        whitespace_words(args@).len() >= 0x4000_0000 ==> r == Err::<(), EmuError>(EmuError::InvalidElf)
            && final(cpu)@ == old(cpu)@,
        whitespace_words(args@).len() < 0x4000_0000 ==> (final(cpu)@, r) == load_effect(
            old(cpu)@,
            elf@,
            whitespace_words(args@),
        ),
{
    let words = split_args(args);
    if words.len() >= 0x4000_0000 {
        return Err(EmuError::InvalidElf);
    }
    load_words(elf, cpu, &words)
}

} // verus!
