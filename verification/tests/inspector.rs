use tpom::auxv::AuxVecValues;
use tpom::elf::{dynsyms, DynSym};
use tpom::vdso::vDSO;
use tpom::{Arch, Kind, PatchError};

const EM_X86_64: u16 = 62;
const EM_AARCH64: u16 = 183;
const EM_RISCV: u16 = 243;

fn put_u16(d: &mut [u8], off: usize, v: u16) {
    d[off] = v as u8;
    d[off + 1] = (v >> 8) as u8;
}

fn put_u32(d: &mut [u8], off: usize, v: u32) {
    for i in 0..4 {
        d[off + i] = (v >> (8 * i)) as u8;
    }
}

fn put_u64(d: &mut [u8], off: usize, v: u64) {
    for i in 0..8 {
        d[off + i] = (v >> (8 * i)) as u8;
    }
}

struct Sym {
    name_off: u32,
    value: u64,
    size: u64,
}

/// Builds a minimal vDSO-like ELF64 image: a `.text` section with load
/// base 0x1000 and alignment 16, a dynamic-symbol table, its string
/// table, and the section-name table, with the section headers at the
/// end of the image.
fn build_image(machine: u16, dynstr: &[u8], syms: &[Sym]) -> Vec<u8> {
    let shoff: usize = 0x600;
    let shnum: u16 = 5;
    let total = shoff + 64 * shnum as usize;
    let mut d = vec![0u8; total];

    // ELF header.
    d[0] = 0x7f;
    d[1] = 0x45;
    d[2] = 0x4c;
    d[3] = 0x46;
    d[4] = 2; // 64-bit
    d[5] = 1; // little-endian
    put_u16(&mut d, 18, machine);
    put_u64(&mut d, 40, shoff as u64);
    put_u16(&mut d, 58, 64);
    put_u16(&mut d, 60, shnum);
    put_u16(&mut d, 62, 4); // .shstrtab section index

    // Section-name table at 0x80: "\0.text\0.dynsym\0.dynstr\0.shstrtab\0"
    let shstr: &[u8] = b"\0.text\0.dynsym\0.dynstr\0.shstrtab\0";
    d[0x80..0x80 + shstr.len()].copy_from_slice(shstr);

    // Dynamic string table at 0xc0.
    let dynstr_off = 0xc0usize;
    d[dynstr_off..dynstr_off + dynstr.len()].copy_from_slice(dynstr);

    // Dynamic-symbol table at 0x200: a null entry, then the given ones.
    let sym_off = 0x200usize;
    let count = 1 + syms.len();
    for (k, s) in syms.iter().enumerate() {
        let e = sym_off + 24 * (k + 1);
        put_u32(&mut d, e, s.name_off);
        put_u64(&mut d, e + 8, s.value);
        put_u64(&mut d, e + 16, s.size);
    }

    // Section headers: null, .text, .dynsym, .dynstr, .shstrtab.
    let sh = |d: &mut Vec<u8>, i: usize, name: u32, ty: u32, addr: u64, off: u64, size: u64, link: u32, align: u64| {
        let b = shoff + 64 * i;
        put_u32(d, b, name);
        put_u32(d, b + 4, ty);
        put_u64(d, b + 16, addr);
        put_u64(d, b + 24, off);
        put_u64(d, b + 32, size);
        put_u32(d, b + 40, link);
        put_u64(d, b + 48, align);
    };
    // .text: file offset 0x100, loaded at 0x1100, so the load base is 0x1000.
    sh(&mut d, 1, 1, 1, 0x1100, 0x100, 0x100, 0, 16);
    // .dynsym: type 11, linked to .dynstr (section 3).
    sh(&mut d, 2, 7, 11, 0, sym_off as u64, (24 * count) as u64, 3, 8);
    // .dynstr: type 3.
    sh(&mut d, 3, 15, 3, 0, dynstr_off as u64, dynstr.len() as u64, 0, 1);
    // .shstrtab: type 3.
    sh(&mut d, 4, 23, 3, 0, 0x80, shstr.len() as u64, 0, 1);
    d
}

fn x86_image() -> Vec<u8> {
    // "\0__vdso_clock_gettime\0clock_gettime\0__vdso_time\0"
    let dynstr = b"\0__vdso_clock_gettime\0clock_gettime\0__vdso_time\0";
    build_image(
        EM_X86_64,
        dynstr,
        &[
            Sym { name_off: 1, value: 0x1400, size: 0x25 },
            Sym { name_off: 22, value: 0x1400, size: 0x25 },
            Sym { name_off: 36, value: 0x1500, size: 0x10 },
        ],
    )
}

fn aarch64_image() -> Vec<u8> {
    let dynstr = b"\0__kernel_clock_gettime\0__kernel_gettimeofday\0";
    build_image(
        EM_AARCH64,
        dynstr,
        &[
            Sym { name_off: 1, value: 0x1400, size: 0x25 },
            Sym { name_off: 24, value: 0x1500, size: 0x10 },
        ],
    )
}

fn vdso_of(data: Vec<u8>) -> vDSO {
    vDSO::from_parts(AuxVecValues { vdso_base: 0, page_size: 0x1000 }, data)
}

#[test]
fn dynsyms_of_synthetic_image() {
    let parsed = dynsyms(&x86_image()).unwrap();
    let expected = vec![
        DynSym { name: b"__vdso_clock_gettime".to_vec(), address: 0x400, size: 0x30 },
        DynSym { name: b"clock_gettime".to_vec(), address: 0x400, size: 0x30 },
        DynSym { name: b"__vdso_time".to_vec(), address: 0x500, size: 0x10 },
    ];
    assert_eq!(parsed, expected);
}

#[test]
fn sizes_are_rounded_to_text_alignment() {
    // 0x25 rounds up to 0x30 with alignment 16; 0x10 stays.
    let parsed = dynsyms(&x86_image()).unwrap();
    for s in &parsed {
        assert_eq!(s.size % 16, 0);
    }
    assert_eq!(parsed[0].size, 0x30);
    assert_eq!(parsed[2].size, 0x10);
}

#[test]
fn two_snapshots_enumerate_identically() {
    // Two independently built snapshots of the same image.
    let a = dynsyms(&x86_image()).unwrap();
    let b = dynsyms(&x86_image()).unwrap();
    assert_eq!(a, b);
}

#[test]
fn short_buffer_is_bad_elf() {
    assert_eq!(dynsyms(&vec![0x7f, 0x45, 0x4c]), Err(PatchError::BadElf));
}

#[test]
fn bad_magic_is_bad_elf() {
    let mut d = x86_image();
    d[1] = 0x46;
    assert_eq!(dynsyms(&d), Err(PatchError::BadElf));
}

#[test]
fn missing_text_section_is_reported() {
    let mut d = x86_image();
    // Break the `.text` name in the section-name table: ".text" -> ".taxt".
    d[0x80 + 3] = b'a';
    assert_eq!(dynsyms(&d), Err(PatchError::NoTextSection));
}

#[test]
fn zero_alignment_is_no_text_section() {
    let mut d = x86_image();
    // sh_addralign of section 1 (.text) lies at shoff + 64 + 48.
    let p = 0x600 + 64 + 48;
    for i in 0..8 {
        d[p + i] = 0;
    }
    assert_eq!(dynsyms(&d), Err(PatchError::NoTextSection));
}

#[test]
fn entry_finds_prefixed_symbol_only() {
    let v = vdso_of(x86_image());
    let f = v.entry(Kind::GetTime).unwrap();
    assert_eq!(f.name, b"__vdso_clock_gettime".to_vec());
    assert_eq!(f.addr, 0x400);
    assert_eq!(f.size, 0x30);
}

#[test]
fn entry_time_on_x86() {
    let v = vdso_of(x86_image());
    let f = v.entry(Kind::Time).unwrap();
    assert_eq!(f.name, b"__vdso_time".to_vec());
    assert_eq!(f.addr, 0x500);
    assert_eq!(f.size, 0x10);
}

#[test]
fn entry_absent_kind_is_none() {
    // No gettimeofday symbol in the synthetic x86 image.
    let v = vdso_of(x86_image());
    assert!(v.entry(Kind::GetTimeOfDay).is_none());
}

#[test]
fn entry_time_absent_on_aarch64() {
    // AArch64 exports no `time`; the lookup yields none and the value
    // stays usable for other kinds.
    let v = vdso_of(aarch64_image());
    assert!(v.entry(Kind::Time).is_none());
    let f = v.entry(Kind::GetTime).unwrap();
    assert_eq!(f.name, b"__kernel_clock_gettime".to_vec());
    assert_eq!(f.addr, 0x400);
}

#[test]
fn arch_comes_from_the_image() {
    assert_eq!(vdso_of(x86_image()).arch(), Some(Arch::X86_64));
    assert_eq!(vdso_of(aarch64_image()).arch(), Some(Arch::Aarch64));
    let mut riscv = x86_image();
    put_u16(&mut riscv, 18, EM_RISCV);
    assert_eq!(vdso_of(riscv).arch(), Some(Arch::Riscv64));
    let mut other = x86_image();
    put_u16(&mut other, 18, 40);
    assert_eq!(vdso_of(other).arch(), None);
}

#[test]
fn header_fields_are_read_little_endian() {
    let d = x86_image();
    let h = tpom::elf::parse_elf_header(&d).unwrap();
    assert_eq!(h.machine, EM_X86_64);
    assert_eq!(h.shoff, 0x600);
    assert_eq!(h.shentsize, 64);
    assert_eq!(h.shnum, 5);
    assert_eq!(h.shstrndx, 4);
    assert_eq!(tpom::elf::image_len(&h), Some(0x600 + 5 * 64));
}

#[test]
fn header_of_short_or_unmagical_buffer_is_rejected() {
    assert_eq!(
        tpom::elf::parse_elf_header(&vec![0u8; 63]),
        Err(PatchError::BadElf)
    );
    let mut d = x86_image();
    d[0] = 0;
    assert_eq!(tpom::elf::parse_elf_header(&d), Err(PatchError::BadElf));
}

#[test]
fn symbol_code_reads_the_snapshot() {
    let mut img = x86_image();
    for i in 0..0x30 {
        img[0x400 + i] = i as u8;
    }
    let v = vdso_of(img);
    let code = v.symbol_code(&b"__vdso_clock_gettime".to_vec()).unwrap();
    assert_eq!(code.len(), 0x30);
    for i in 0..0x30 {
        assert_eq!(code[i], i as u8);
    }
    assert!(v.symbol_code(&b"__vdso_getcpu".to_vec()).is_none());
}
