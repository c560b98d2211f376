//! The ELF inspector: given the bytes of the vDSO image, enumerates the
//! exported dynamic symbols with their in-image offsets and their sizes
//! rounded up to the `.text` section's alignment.
//!
//! The vDSO of a 64-bit Linux process is a little-endian ELF64 image; the
//! layout constants below are that format's fixed field offsets.

use crate::bytes::cstr;
use crate::bytes::le16;
use crate::bytes::le32;
use crate::bytes::le64;
use crate::bytes::read_cstr;
use crate::bytes::read_u16;
use crate::bytes::read_u32;
use crate::bytes::read_u64;
use crate::Arch;
use crate::PatchError;
use vstd::prelude::*;

verus! {

/// Size of an ELF64 file header.
pub const ELF_HDR_SIZE: usize = 64;

/// Section type of program data (`.text` has it).
pub const SHT_PROGBITS: u32 = 1;

/// Section type of the dynamic-symbol table.
pub const SHT_DYNSYM: u32 = 11;

/// `e_machine` of x86-64.
pub const EM_X86_64: u16 = 62;

/// `e_machine` of AArch64.
pub const EM_AARCH64: u16 = 183;

/// `e_machine` of RISC-V.
pub const EM_RISCV: u16 = 243;

// Field offsets inside the ELF64 file header.
pub open spec fn ehdr_machine(d: Seq<u8>) -> int {
    le16(d, 18)
}

pub open spec fn ehdr_shoff(d: Seq<u8>) -> int {
    le64(d, 40)
}

pub open spec fn ehdr_shentsize(d: Seq<u8>) -> int {
    le16(d, 58)
}

pub open spec fn ehdr_shnum(d: Seq<u8>) -> int {
    le16(d, 60)
}

pub open spec fn ehdr_shstrndx(d: Seq<u8>) -> int {
    le16(d, 62)
}

/// A whole ELF64 header is present and starts with the ELF magic.
pub open spec fn valid_ehdr(d: Seq<u8>) -> bool {
    &&& d.len() >= 64
    &&& d[0] == 0x7f
    &&& d[1] == 0x45
    &&& d[2] == 0x4c
    &&& d[3] == 0x46
}

/// Where the image ends: the section-header table is the last thing in a
/// vDSO image, so its end is the image's total length.
pub open spec fn spec_image_len(d: Seq<u8>) -> int {
    ehdr_shoff(d) + ehdr_shnum(d) * ehdr_shentsize(d)
}

/// The fields of the ELF header that discovery and symbol enumeration
/// need, as plain values.
#[derive(PartialEq, Eq, Structural, Clone, Copy, Debug)]
pub struct ElfHeader {
    pub machine: u16,
    pub shoff: u64,
    pub shentsize: u16,
    pub shnum: u16,
    pub shstrndx: u16,
}

/// `h` holds exactly what the header bytes of `d` say.
pub open spec fn header_matches(h: ElfHeader, d: Seq<u8>) -> bool {
    &&& valid_ehdr(d)
    &&& h.machine == ehdr_machine(d)
    &&& h.shoff == ehdr_shoff(d)
    &&& h.shentsize == ehdr_shentsize(d)
    &&& h.shnum == ehdr_shnum(d)
    &&& h.shstrndx == ehdr_shstrndx(d)
}

/// Reads the ELF header fields; rejects a buffer that is too short for a
/// header or does not start with the ELF magic.
pub fn parse_elf_header(d: &Vec<u8>) -> (r: Result<ElfHeader, PatchError>)
    ensures
        r is Ok <==> valid_ehdr(d@),
        r matches Ok(h) ==> header_matches(h, d@),
        r matches Err(e) ==> e == PatchError::BadElf,
{
    if d.len() < ELF_HDR_SIZE {
        return Err(PatchError::BadElf);
    }
    if d[0] != 0x7f || d[1] != 0x45 || d[2] != 0x4c || d[3] != 0x46 {
        return Err(PatchError::BadElf);
    }
    let machine = read_u16(d, 18);
    let shoff = read_u64(d, 40);
    let shentsize = read_u16(d, 58);
    let shnum = read_u16(d, 60);
    let shstrndx = read_u16(d, 62);
    Ok(ElfHeader { machine, shoff, shentsize, shnum, shstrndx })
}

/// The total image length the header implies: `e_shoff` plus the size of
/// the section-header table; `None` when that does not fit in `usize`.
pub fn image_len(h: &ElfHeader) -> (r: Option<usize>)
    ensures
        r matches Some(l) ==> l == h.shoff + h.shnum * h.shentsize,
        r is None <==> h.shoff + h.shnum * h.shentsize > usize::MAX,
{
    proof {
        assert((h.shnum as int) * (h.shentsize as int) <= 0xffff * 0xffff) by (nonlinear_arith)
            requires
                h.shnum <= 0xffff && h.shentsize <= 0xffff,
        ;
    }
    let table = (h.shnum as u64) * (h.shentsize as u64);
    match h.shoff.checked_add(table) {
        Some(total) => {
            if total <= usize::MAX as u64 {
                Some(total as usize)
            } else {
                None
            }
        },
        None => None,
    }
}

/// Which architecture an `e_machine` value names, among the supported ones.
pub open spec fn spec_arch_of_machine(m: int) -> Option<Arch> {
    if m == EM_X86_64 as int {
        Some(Arch::X86_64)
    } else if m == EM_AARCH64 as int {
        Some(Arch::Aarch64)
    } else if m == EM_RISCV as int {
        Some(Arch::Riscv64)
    } else {
        None
    }
}

pub fn arch_of_machine(m: u16) -> (r: Option<Arch>)
    ensures
        r == spec_arch_of_machine(m as int),
{
    if m == EM_X86_64 {
        Some(Arch::X86_64)
    } else if m == EM_AARCH64 {
        Some(Arch::Aarch64)
    } else if m == EM_RISCV {
        Some(Arch::Riscv64)
    } else {
        None
    }
}

/// The header is sound and the image holds its whole section-header table.
pub open spec fn layout_ok(d: Seq<u8>) -> bool {
    &&& valid_ehdr(d)
    &&& ehdr_shentsize(d) >= 64
    &&& spec_image_len(d) <= d.len()
}

/// Where section header `i` starts.
pub open spec fn sh_off(d: Seq<u8>, i: int) -> int {
    ehdr_shoff(d) + i * ehdr_shentsize(d)
}

// Field offsets inside an ELF64 section header.
pub open spec fn sh_name(d: Seq<u8>, i: int) -> int {
    le32(d, sh_off(d, i))
}

pub open spec fn sh_type(d: Seq<u8>, i: int) -> int {
    le32(d, sh_off(d, i) + 4)
}

pub open spec fn sh_addr(d: Seq<u8>, i: int) -> int {
    le64(d, sh_off(d, i) + 16)
}

pub open spec fn sh_offset(d: Seq<u8>, i: int) -> int {
    le64(d, sh_off(d, i) + 24)
}

pub open spec fn sh_size(d: Seq<u8>, i: int) -> int {
    le64(d, sh_off(d, i) + 32)
}

pub open spec fn sh_link(d: Seq<u8>, i: int) -> int {
    le32(d, sh_off(d, i) + 40)
}

pub open spec fn sh_addralign(d: Seq<u8>, i: int) -> int {
    le64(d, sh_off(d, i) + 48)
}

proof fn lemma_shdr_in_bounds(d: Seq<u8>, i: int)
    requires
        layout_ok(d),
        0 <= i < ehdr_shnum(d),
    ensures
        0 <= ehdr_shoff(d) <= sh_off(d, i),
        sh_off(d, i) + 64 <= d.len(),
        sh_off(d, i) + ehdr_shentsize(d) <= d.len(),
        0 <= i * ehdr_shentsize(d),
        ehdr_shoff(d) + i * ehdr_shentsize(d) + ehdr_shentsize(d) <= d.len(),
{
    let e = ehdr_shentsize(d);
    let n = ehdr_shnum(d);
    assert(0 <= i * e && i * e + e == (i + 1) * e && (i + 1) * e <= n * e) by (nonlinear_arith)
        requires
            0 <= i < n && e >= 0,
    ;
}

/// One section header's fields, as plain values.
#[derive(PartialEq, Eq, Structural, Clone, Copy, Debug)]
pub struct Section {
    pub name: u32,
    pub ty: u32,
    pub addr: u64,
    pub offset: u64,
    pub size: u64,
    pub link: u32,
    pub addralign: u64,
}

/// `s` holds exactly what section header `i` of `d` says.
pub open spec fn section_matches(s: Section, d: Seq<u8>, i: int) -> bool {
    &&& s.name == sh_name(d, i)
    &&& s.ty == sh_type(d, i)
    &&& s.addr == sh_addr(d, i)
    &&& s.offset == sh_offset(d, i)
    &&& s.size == sh_size(d, i)
    &&& s.link == sh_link(d, i)
    &&& s.addralign == sh_addralign(d, i)
}

/// Reads section header `i`.
fn read_section(d: &Vec<u8>, h: &ElfHeader, i: u16) -> (r: Section)
    requires
        header_matches(*h, d@),
        layout_ok(d@),
        i < h.shnum,
    ensures
        section_matches(r, d@, i as int),
{
    proof {
        assert(d.len() == d@.len());
        lemma_shdr_in_bounds(d@, i as int);
        let e = ehdr_shentsize(d@);
        assert((i as int) * (h.shentsize as int) == (i as int) * e) by (nonlinear_arith)
            requires
                h.shentsize == e,
        ;
    }
    let off = (h.shoff as usize) + (i as usize) * (h.shentsize as usize);
    Section {
        name: read_u32(d, off),
        ty: read_u32(d, off + 4),
        addr: read_u64(d, off + 16),
        offset: read_u64(d, off + 24),
        size: read_u64(d, off + 32),
        link: read_u32(d, off + 40),
        addralign: read_u64(d, off + 48),
    }
}

/// Index of the first section of type `ty` among the first `n`, or -1.
pub open spec fn first_section_of_type(d: Seq<u8>, ty: int, n: int) -> int
    decreases n,
{
    if n <= 0 {
        -1
    } else if first_section_of_type(d, ty, n - 1) >= 0 {
        first_section_of_type(d, ty, n - 1)
    } else if sh_type(d, n - 1) == ty {
        n - 1
    } else {
        -1
    }
}

proof fn lemma_first_section_stable(d: Seq<u8>, ty: int, m: int, n: int)
    requires
        0 <= m <= n,
        first_section_of_type(d, ty, m) >= 0,
    ensures
        first_section_of_type(d, ty, n) == first_section_of_type(d, ty, m),
    decreases n - m,
{
    if n > m {
        lemma_first_section_stable(d, ty, m, n - 1);
    }
}

/// Finds the first section of type `ty`.
fn find_section_of_type(d: &Vec<u8>, h: &ElfHeader, ty: u32) -> (r: Option<u16>)
    requires
        header_matches(*h, d@),
        layout_ok(d@),
    ensures
        r matches Some(i) ==> i < h.shnum && first_section_of_type(d@, ty as int, h.shnum as int)
            == i,
        r is None <==> first_section_of_type(d@, ty as int, h.shnum as int) == -1,
{
    let n = h.shnum;
    let mut i: u16 = 0;
    while i < n
        invariant
            header_matches(*h, d@),
            layout_ok(d@),
            n == h.shnum,
            i <= n,
            first_section_of_type(d@, ty as int, i as int) == -1,
        decreases n - i,
    {
        let s = read_section(d, h, i);
        if s.ty == ty {
            proof {
                assert(first_section_of_type(d@, ty as int, i + 1) == i);
                lemma_first_section_stable(d@, ty as int, i + 1, n as int);
            }
            return Some(i);
        }
        i = i + 1;
    }
    None
}

/// Where the section-name string table lies, and where reading a name in
/// it must stop: at the table's end, or at the image's if that is nearer.
pub open spec fn strtab_off(d: Seq<u8>) -> int {
    sh_offset(d, ehdr_shstrndx(d))
}

pub open spec fn strtab_end(d: Seq<u8>) -> int {
    let e = strtab_off(d) + sh_size(d, ehdr_shstrndx(d));
    if e <= d.len() {
        e
    } else {
        d.len() as int
    }
}

/// The NUL-terminated name of section `i`.
pub open spec fn section_name(d: Seq<u8>, i: int) -> Seq<u8> {
    cstr(d, strtab_off(d) + sh_name(d, i), strtab_end(d))
}

/// The name `.text` as bytes.
pub open spec fn text_name() -> Seq<u8> {
    seq![0x2eu8, 0x74u8, 0x65u8, 0x78u8, 0x74u8]
}

/// Section `i` is the program-bits section named `.text`.
pub open spec fn is_text_section(d: Seq<u8>, i: int) -> bool {
    sh_type(d, i) == SHT_PROGBITS as int && section_name(d, i) == text_name()
}

/// Index of the last `.text` program-bits section among the first `n`,
/// or -1 -- the last, because a scan that overwrites on every match keeps
/// the last one.
pub open spec fn text_idx_upto(d: Seq<u8>, n: int) -> int
    decreases n,
{
    if n <= 0 {
        -1
    } else if is_text_section(d, n - 1) {
        n - 1
    } else {
        text_idx_upto(d, n - 1)
    }
}

pub open spec fn text_idx(d: Seq<u8>) -> int {
    text_idx_upto(d, ehdr_shnum(d))
}

/// The `.text` section's alignment: symbol sizes are rounded up to it.
pub open spec fn text_align(d: Seq<u8>) -> int {
    sh_addralign(d, text_idx(d))
}

/// The image's load base: a symbol's in-image offset is its address minus
/// this.
pub open spec fn text_lbase(d: Seq<u8>) -> int {
    sh_addr(d, text_idx(d)) - sh_offset(d, text_idx(d))
}

/// A `.text` section exists and yields a usable alignment and load base.
pub open spec fn text_resolved(d: Seq<u8>) -> bool {
    &&& text_idx(d) >= 0
    &&& text_align(d) > 0
    &&& sh_addr(d, text_idx(d)) >= sh_offset(d, text_idx(d))
}

/// Reads one NUL-terminated name out of the string table that starts at
/// `tab_off` (a 64-bit file offset) and ends at `tab_end` (already clamped
/// to the image), beginning `name_off` bytes into the table.
fn read_table_name(d: &Vec<u8>, tab_off: u64, tab_end: usize, name_off: u32) -> (r: Vec<u8>)
    requires
        tab_end <= d.len(),
    ensures
        r@ == cstr(d@, tab_off + name_off, tab_end as int),
{
    match tab_off.checked_add(name_off as u64) {
        Some(start) => {
            if start >= tab_end as u64 {
                proof {
                    assert(cstr(d@, tab_off + name_off, tab_end as int) =~= Seq::<u8>::empty());
                }
                Vec::new()
            } else {
                read_cstr(d, start as usize, tab_end)
            }
        },
        None => {
            proof {
                assert(tab_off + name_off > u64::MAX);
                assert(cstr(d@, tab_off + name_off, tab_end as int) =~= Seq::<u8>::empty());
            }
            Vec::new()
        },
    }
}

/// The `.text` section's alignment and load base, from a scan of all
/// sections that keeps the last `.text` match; `None` exactly when no
/// usable `.text` section is there.
fn find_text(d: &Vec<u8>, h: &ElfHeader) -> (r: Option<(u64, u64)>)
    requires
        header_matches(*h, d@),
        layout_ok(d@),
        h.shstrndx < h.shnum,
    ensures
        r is Some <==> text_resolved(d@),
        r matches Some(t) ==> t.0 == text_align(d@) && t.1 == text_lbase(d@),
{
    let strtab = read_section(d, h, h.shstrndx);
    let len = d.len();
    let tab_end: usize = match strtab.offset.checked_add(strtab.size) {
        Some(e) => {
            if e <= len as u64 {
                e as usize
            } else {
                len
            }
        },
        None => len,
    };
    proof {
        assert(tab_end == strtab_end(d@));
    }
    let text: Vec<u8> = vec![0x2eu8, 0x74u8, 0x65u8, 0x78u8, 0x74u8];
    proof {
        assert(text@ =~= text_name());
    }
    let n = h.shnum;
    let mut i: u16 = 0;
    let mut found = false;
    let mut talign: u64 = 0;
    let mut taddr: u64 = 0;
    let mut toffset: u64 = 0;
    while i < n
        invariant
            header_matches(*h, d@),
            layout_ok(d@),
            h.shstrndx < h.shnum,
            n == h.shnum,
            i <= n,
            tab_end == strtab_end(d@),
            tab_end <= d@.len(),
            strtab.offset == strtab_off(d@),
            text@ == text_name(),
            found <==> text_idx_upto(d@, i as int) >= 0,
            found ==> {
                let t = text_idx_upto(d@, i as int);
                &&& talign == sh_addralign(d@, t)
                &&& taddr == sh_addr(d@, t)
                &&& toffset == sh_offset(d@, t)
            },
        decreases n - i,
    {
        let s = read_section(d, h, i);
        let name = read_table_name(d, strtab.offset, tab_end, s.name);
        let is_text = s.ty == SHT_PROGBITS && crate::bytes::bytes_eq(name.as_slice(), text.as_slice());
        proof {
            assert(is_text == is_text_section(d@, i as int));
        }
        if is_text {
            found = true;
            talign = s.addralign;
            taddr = s.addr;
            toffset = s.offset;
        }
        i = i + 1;
    }
    if !found {
        return None;
    }
    if talign == 0 {
        return None;
    }
    if taddr < toffset {
        return None;
    }
    Some((talign, taddr - toffset))
}

/// Index of the dynamic-symbol table's section, or -1.
pub open spec fn dynsym_idx(d: Seq<u8>) -> int {
    first_section_of_type(d, SHT_DYNSYM as int, ehdr_shnum(d))
}

/// Where the dynamic-symbol table lies and how long it is.
pub open spec fn dynsym_off(d: Seq<u8>) -> int {
    sh_offset(d, dynsym_idx(d))
}

pub open spec fn dynsym_size(d: Seq<u8>) -> int {
    sh_size(d, dynsym_idx(d))
}

/// How many whole entries the table holds.
pub open spec fn sym_count(d: Seq<u8>) -> int {
    dynsym_size(d) / 24
}

// Field offsets inside an ELF64 symbol-table entry.
pub open spec fn sym_name_off(d: Seq<u8>, j: int) -> int {
    le32(d, dynsym_off(d) + j * 24)
}

pub open spec fn sym_value(d: Seq<u8>, j: int) -> int {
    le64(d, dynsym_off(d) + j * 24 + 8)
}

pub open spec fn sym_size_raw(d: Seq<u8>, j: int) -> int {
    le64(d, dynsym_off(d) + j * 24 + 16)
}

/// Where the dynamic string table lies: the section the symbol table's
/// `sh_link` names.
pub open spec fn dynstr_idx(d: Seq<u8>) -> int {
    sh_link(d, dynsym_idx(d))
}

pub open spec fn dynstr_off(d: Seq<u8>) -> int {
    sh_offset(d, dynstr_idx(d))
}

pub open spec fn dynstr_end(d: Seq<u8>) -> int {
    let e = dynstr_off(d) + sh_size(d, dynstr_idx(d));
    if e <= d.len() {
        e
    } else {
        d.len() as int
    }
}

/// The NUL-terminated name of symbol `j`.
pub open spec fn symbol_name(d: Seq<u8>, j: int) -> Seq<u8> {
    cstr(d, dynstr_off(d) + sym_name_off(d, j), dynstr_end(d))
}

/// Symbol `j`'s natural size rounded up to the `.text` alignment: the
/// byte distance to the next symbol slot.
pub open spec fn padded_size(d: Seq<u8>, j: int) -> int {
    let a = text_align(d);
    let s = sym_size_raw(d, j);
    if s % a == 0 {
        s
    } else {
        s + (a - s % a)
    }
}

/// Symbol `j` can be turned into a row: its in-image offset and padded
/// size exist and fit the machine word.  Symbols with value zero are
/// discarded, so nothing is asked of them.
pub open spec fn sym_ok(d: Seq<u8>, j: int) -> bool {
    sym_value(d, j) != 0 ==> {
        &&& sym_value(d, j) >= text_lbase(d)
        &&& sym_value(d, j) - text_lbase(d) <= usize::MAX
        &&& padded_size(d, j) <= usize::MAX
    }
}

/// The dynamic-symbol table and its string table are present and whole.
pub open spec fn symtab_ok(d: Seq<u8>) -> bool {
    &&& dynsym_idx(d) >= 0
    &&& dynsym_off(d) + dynsym_size(d) <= d.len()
    &&& dynstr_idx(d) < ehdr_shnum(d)
    &&& forall|j: int| 0 <= j < sym_count(d) ==> sym_ok(d, j)
}

/// One enumerated symbol, as the mathematical model of a `DynSym`.
pub struct SymRow {
    pub name: Seq<u8>,
    pub address: int,
    pub size: int,
}

/// The rows of the first `n` table entries: one row per entry whose value
/// is non-zero, in table order.
pub open spec fn rows_upto(d: Seq<u8>, n: int) -> Seq<SymRow>
    decreases n,
{
    if n <= 0 {
        Seq::empty()
    } else if sym_value(d, n - 1) != 0 {
        rows_upto(d, n - 1).push(
            SymRow {
                name: symbol_name(d, n - 1),
                address: sym_value(d, n - 1) - text_lbase(d),
                size: padded_size(d, n - 1),
            },
        )
    } else {
        rows_upto(d, n - 1)
    }
}

/// Every row the inspector produces, in table order.
pub open spec fn spec_dynsyms(d: Seq<u8>) -> Seq<SymRow> {
    rows_upto(d, sym_count(d))
}

/// Why enumeration fails on `d`, or `None` when it succeeds.
pub open spec fn parse_error(d: Seq<u8>) -> Option<PatchError> {
    if !(layout_ok(d) && ehdr_shstrndx(d) < ehdr_shnum(d)) {
        Some(PatchError::BadElf)
    } else if !text_resolved(d) {
        Some(PatchError::NoTextSection)
    } else if !symtab_ok(d) {
        Some(PatchError::BadElf)
    } else {
        None
    }
}

/// One row per dynamic symbol whose value is non-zero: its name, its
/// offset from the image base, and its size rounded up to the `.text`
/// alignment.
#[derive(PartialEq, Eq, Clone, Debug)]
pub struct DynSym {
    pub name: Vec<u8>,
    pub address: usize,
    pub size: usize,
}

/// The model a `DynSym` stands for.
pub open spec fn row_of(s: DynSym) -> SymRow {
    SymRow { name: s.name@, address: s.address as int, size: s.size as int }
}

/// Enumerates the exported dynamic symbols of the image `d`.
pub fn dynsyms(d: &Vec<u8>) -> (r: Result<Vec<DynSym>, PatchError>)
    ensures
        r is Ok <==> parse_error(d@) is None,
        r matches Err(e) ==> parse_error(d@) == Some(e),
        r matches Ok(v) ==> v@.len() == spec_dynsyms(d@).len() && (forall|k: int|
            0 <= k < v@.len() ==> row_of(#[trigger] v@[k]) == spec_dynsyms(d@)[k]),
{
    let h = match parse_elf_header(d) {
        Ok(h) => h,
        Err(e) => {
            return Err(e);
        },
    };
    if h.shentsize < 64 {
        return Err(PatchError::BadElf);
    }
    proof {
        assert(d.len() == d@.len());
        assert((h.shnum as int) * (h.shentsize as int) == ehdr_shnum(d@) * ehdr_shentsize(d@))
            by (nonlinear_arith)
            requires
                h.shnum == ehdr_shnum(d@) && h.shentsize == ehdr_shentsize(d@),
        ;
    }
    match image_len(&h) {
        Some(l) => {
            if l > d.len() {
                return Err(PatchError::BadElf);
            }
        },
        None => {
            return Err(PatchError::BadElf);
        },
    }
    if h.shstrndx >= h.shnum {
        return Err(PatchError::BadElf);
    }
    let (talign, tlbase) = match find_text(d, &h) {
        Some(t) => t,
        None => {
            return Err(PatchError::NoTextSection);
        },
    };
    let si = match find_section_of_type(d, &h, SHT_DYNSYM) {
        Some(i) => i,
        None => {
            proof {
                assert(!symtab_ok(d@));
            }
            return Err(PatchError::BadElf);
        },
    };
    let symsec = read_section(d, &h, si);
    let sym_end = match symsec.offset.checked_add(symsec.size) {
        Some(e) => e,
        None => {
            return Err(PatchError::BadElf);
        },
    };
    if sym_end > d.len() as u64 {
        return Err(PatchError::BadElf);
    }
    if symsec.link >= h.shnum as u32 {
        return Err(PatchError::BadElf);
    }
    let strsec = read_section(d, &h, symsec.link as u16);
    let len = d.len();
    let dstr_end: usize = match strsec.offset.checked_add(strsec.size) {
        Some(e) => {
            if e <= len as u64 {
                e as usize
            } else {
                len
            }
        },
        None => len,
    };
    proof {
        assert(dstr_end == dynstr_end(d@));
    }
    let count64 = symsec.size / 24;
    proof {
        assert(count64 * 24 <= symsec.size && count64 <= symsec.size) by (nonlinear_arith)
            requires
                count64 == symsec.size / 24,
        ;
    }
    let count = count64 as usize;
    let mut out: Vec<DynSym> = Vec::new();
    let mut j: usize = 0;
    let mut so: usize = symsec.offset as usize;
    while j < count
        invariant
            header_matches(h, d@),
            layout_ok(d@),
            ehdr_shstrndx(d@) < ehdr_shnum(d@),
            text_resolved(d@),
            talign == text_align(d@),
            tlbase == text_lbase(d@),
            si == dynsym_idx(d@),
            si < h.shnum,
            section_matches(symsec, d@, si as int),
            symsec.offset + symsec.size <= d.len(),
            dstr_end == dynstr_end(d@),
            dstr_end <= d.len(),
            strsec.offset == dynstr_off(d@),
            dynstr_idx(d@) < ehdr_shnum(d@),
            count == sym_count(d@),
            count * 24 <= symsec.size,
            j <= count,
            so == dynsym_off(d@) + j * 24,
            forall|q: int| 0 <= q < j ==> sym_ok(d@, q),
            out@.len() == rows_upto(d@, j as int).len(),
            forall|k: int|
                0 <= k < out@.len() ==> row_of(#[trigger] out@[k]) == rows_upto(d@, j as int)[k],
        decreases count - j,
    {
        proof {
            assert(d.len() == d@.len());
            assert(so + 24 <= d.len());
        }
        let stn = read_u32(d, so);
        let stv = read_u64(d, so + 8);
        let sts = read_u64(d, so + 16);
        proof {
            assert(stn == sym_name_off(d@, j as int));
            assert(stv == sym_value(d@, j as int));
            assert(sts == sym_size_raw(d@, j as int));
        }
        if stv != 0 {
            if stv < tlbase {
                proof {
                    assert(!sym_ok(d@, j as int));
                }
                return Err(PatchError::BadElf);
            }
            let addr = stv - tlbase;
            if addr > usize::MAX as u64 {
                proof {
                    assert(!sym_ok(d@, j as int));
                }
                return Err(PatchError::BadElf);
            }
            let rem = sts % talign;
            let padded: u64 = if rem == 0 {
                sts
            } else {
                match sts.checked_add(talign - rem) {
                    Some(p) => p,
                    None => {
                        proof {
                            assert(padded_size(d@, j as int) > u64::MAX);
                            assert(!sym_ok(d@, j as int));
                        }
                        return Err(PatchError::BadElf);
                    },
                }
            };
            proof {
                assert(padded == padded_size(d@, j as int));
            }
            if padded > usize::MAX as u64 {
                proof {
                    assert(!sym_ok(d@, j as int));
                }
                return Err(PatchError::BadElf);
            }
            let name = read_table_name(d, strsec.offset, dstr_end, stn);
            out.push(DynSym { name, address: addr as usize, size: padded as usize });
            proof {
                assert(rows_upto(d@, j + 1) == rows_upto(d@, j as int).push(
                    SymRow {
                        name: symbol_name(d@, j as int),
                        address: sym_value(d@, j as int) - text_lbase(d@),
                        size: padded_size(d@, j as int),
                    },
                ));
            }
        } else {
            proof {
                assert(rows_upto(d@, j + 1) == rows_upto(d@, j as int));
            }
        }
        j = j + 1;
        so = so + 24;
    }
    Ok(out)
}

/// Law: enumeration is a function of the image bytes alone, so parsing
/// two independently captured snapshots with equal bytes yields equal
/// symbol rows and the same verdict.
pub proof fn lemma_enumeration_identity(a: Seq<u8>, b: Seq<u8>)
    requires
        a == b,
    ensures
        spec_dynsyms(a) == spec_dynsyms(b),
        parse_error(a) == parse_error(b),
{
}

/// Law: every enumerated symbol's size is a whole multiple of the
/// `.text` section's alignment.
pub proof fn lemma_symbol_sizes_aligned(d: Seq<u8>, n: int)
    requires
        text_resolved(d),
        0 <= n <= sym_count(d),
    ensures
        forall|k: int|
            0 <= k < rows_upto(d, n).len() ==> (#[trigger] rows_upto(d, n)[k].size) % text_align(d)
                == 0,
    decreases n,
{
    if n > 0 {
        lemma_symbol_sizes_aligned(d, n - 1);
        let a = text_align(d);
        let s = sym_size_raw(d, n - 1);
        if sym_value(d, n - 1) != 0 {
            assert(rows_upto(d, n) == rows_upto(d, n - 1).push(
                SymRow {
                    name: symbol_name(d, n - 1),
                    address: sym_value(d, n - 1) - text_lbase(d),
                    size: padded_size(d, n - 1),
                },
            ));
            if s % a != 0 {
                vstd::arithmetic::div_mod::lemma_fundamental_div_mod(s, a);
                let q = s / a;
                vstd::arithmetic::div_mod::lemma_mod_multiples_basic(q + 1, a);
                let p = padded_size(d, n - 1);
                assert(p == (q + 1) * a) by (nonlinear_arith)
                    requires
                        s == a * q + s % a && p == s + (a - s % a),
                ;
            }
            assert(padded_size(d, n - 1) % a == 0);
        } else {
            assert(rows_upto(d, n) == rows_upto(d, n - 1));
        }
    } else {
        assert(rows_upto(d, n) =~= Seq::<SymRow>::empty());
    }
}

} // verus!
