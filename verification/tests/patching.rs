use tpom::auxv::AuxVecValues;
use tpom::bytes::{bytes_eq, copy_bytes, read_cstr, read_u16, read_u32, read_u64, splice_bytes};
use tpom::vdso::{page_aligned_len, vDSO};
use tpom::{Kind, PatchError, VDSOFun};

const EM_X86_64: u16 = 62;

fn put_u16(d: &mut [u8], off: usize, v: u16) {
    d[off] = v as u8;
    d[off + 1] = (v >> 8) as u8;
}

fn put_u32(d: &mut [u8], off: usize, v: u32) {
    for i in 0..4 {
        d[off + i] = (v >> (8 * i)) as u8;
    }
}

fn put_u64(d: &mut [u8], off: usize, v: u64) {
    for i in 0..8 {
        d[off + i] = (v >> (8 * i)) as u8;
    }
}

/// A minimal image with one `.text` section (base 0x1000, alignment 16)
/// and one real symbol `__vdso_clock_gettime` at offset 0x400, 0x30 bytes.
fn image() -> Vec<u8> {
    let shoff: usize = 0x600;
    let mut d = vec![0u8; shoff + 64 * 5];
    d[0] = 0x7f;
    d[1] = 0x45;
    d[2] = 0x4c;
    d[3] = 0x46;
    d[4] = 2;
    d[5] = 1;
    put_u16(&mut d, 18, EM_X86_64);
    put_u64(&mut d, 40, shoff as u64);
    put_u16(&mut d, 58, 64);
    put_u16(&mut d, 60, 5);
    put_u16(&mut d, 62, 4);
    let shstr: &[u8] = b"\0.text\0.dynsym\0.dynstr\0.shstrtab\0";
    d[0x80..0x80 + shstr.len()].copy_from_slice(shstr);
    let dynstr: &[u8] = b"\0__vdso_clock_gettime\0";
    d[0xc0..0xc0 + dynstr.len()].copy_from_slice(dynstr);
    let sym = 0x200usize;
    put_u32(&mut d, sym + 24, 1);
    put_u64(&mut d, sym + 24 + 8, 0x1400);
    put_u64(&mut d, sym + 24 + 16, 0x25);
    let sh = |d: &mut Vec<u8>, i: usize, name: u32, ty: u32, addr: u64, off: u64, size: u64, link: u32, align: u64| {
        let b = shoff + 64 * i;
        put_u32(d, b, name);
        put_u32(d, b + 4, ty);
        put_u64(d, b + 16, addr);
        put_u64(d, b + 24, off);
        put_u64(d, b + 32, size);
        put_u32(d, b + 40, link);
        put_u64(d, b + 48, align);
    };
    sh(&mut d, 1, 1, 1, 0x1100, 0x100, 0x100, 0, 16);
    sh(&mut d, 2, 7, 11, 0, 0x200, 48, 3, 8);
    sh(&mut d, 3, 15, 3, 0, 0xc0, dynstr.len() as u64, 0, 1);
    sh(&mut d, 4, 23, 3, 0, 0x80, shstr.len() as u64, 0, 1);
    // Give the symbol's slot recognizable contents.
    for i in 0..0x30 {
        d[0x400 + i] = 0xA0 ^ (i as u8);
    }
    d
}

fn vdso_of(data: Vec<u8>) -> vDSO {
    vDSO::from_parts(AuxVecValues { vdso_base: 0, page_size: 0x1000 }, data)
}

#[test]
fn overwrite_then_restore_is_identity() {
    // The restoration round trip on the image model: patch the symbol's
    // slot with the emitted stub, write the backup over it, and the image
    // is byte-for-byte what it was.
    let original = image();
    let v = vdso_of(original.clone());
    let f = v.entry(Kind::GetTime).unwrap();
    let (opcodes, backup) = v.prepare_overwrite(&f, 0x12ff34ff56ff78ff).unwrap();
    assert_eq!(opcodes.len(), f.size);
    assert_eq!(backup.addr, f.addr);
    assert_eq!(backup.data.len(), f.size);

    let patched = splice_bytes(&v.data, f.addr, &opcodes);
    assert_ne!(patched, original);
    assert_eq!(&patched[f.addr..f.addr + 2], &[0x48, 0xB8]);

    let restored = splice_bytes(&patched, backup.addr, &backup.data);
    assert_eq!(restored, original);
}

#[test]
fn round_trip_on_other_architectures() {
    // The same image, relabelled AArch64 and then RISC-V 64: the stub
    // differs, the restoration round trip holds all the same.
    for (machine, prefix) in [
        (183u16, [0x40u8, 0x00, 0x00, 0x58]),
        (243u16, [0x97u8, 0x02, 0x00, 0x00]),
    ] {
        let mut img = image();
        put_u16(&mut img, 18, machine);
        let v = vdso_of(img.clone());
        let f = VDSOFun { name: Vec::new(), addr: 0x400, size: 0x30 };
        let (opcodes, backup) = v.prepare_overwrite(&f, 0x12ff34ff56ff78ff).unwrap();
        assert_eq!(opcodes.len(), 0x30);
        assert_eq!(&opcodes[..4], &prefix);
        let patched = splice_bytes(&v.data, f.addr, &opcodes);
        let restored = splice_bytes(&patched, backup.addr, &backup.data);
        assert_eq!(restored, img);
    }
}

#[test]
fn backup_captures_the_slot_bytes() {
    let v = vdso_of(image());
    let f = v.entry(Kind::GetTime).unwrap();
    let (_, backup) = v.prepare_overwrite(&f, 0x7fff_0000).unwrap();
    for i in 0..0x30usize {
        assert_eq!(backup.data[i], 0xA0 ^ (i as u8));
    }
}

#[test]
fn prepare_rejects_short_slot() {
    let v = vdso_of(image());
    let f = VDSOFun { name: b"__vdso_clock_gettime".to_vec(), addr: 0x400, size: 8 };
    assert!(matches!(
        v.prepare_overwrite(&f, 0x7fff_0000),
        Err(PatchError::StubTooSmall)
    ));
}

#[test]
fn prepare_rejects_slot_past_the_image() {
    let v = vdso_of(image());
    let len = v.data.len();
    let f = VDSOFun { name: b"__vdso_clock_gettime".to_vec(), addr: len - 8, size: 0x30 };
    assert!(matches!(
        v.prepare_overwrite(&f, 0x7fff_0000),
        Err(PatchError::BadElf)
    ));
}

#[test]
fn protection_length_covers_whole_pages() {
    assert_eq!(page_aligned_len(0, 4096), 0);
    assert_eq!(page_aligned_len(1, 4096), 4096);
    assert_eq!(page_aligned_len(4096, 4096), 4096);
    assert_eq!(page_aligned_len(4097, 4096), 8192);
    let v = vdso_of(image());
    assert_eq!(v.protect_len(), 4096);
}

#[test]
fn range_code_is_bounded() {
    let v = vdso_of(image());
    assert!(v.range_code(0, v.data.len()).is_some());
    assert!(v.range_code(1, v.data.len()).is_none());
    let r = v.range_code(0x400, 4).unwrap();
    assert_eq!(r, vec![0xA0, 0xA1, 0xA2, 0xA3]);
}

#[test]
fn little_endian_readers() {
    let d = vec![0x01, 0x02, 0x03, 0x04, 0x05, 0x06, 0x07, 0x08, 0x09];
    assert_eq!(read_u16(&d, 0), 0x0201);
    assert_eq!(read_u32(&d, 1), 0x05040302);
    assert_eq!(read_u64(&d, 1), 0x0908070605040302);
}

#[test]
fn cstr_reading_stops_at_nul_or_bound() {
    let d = b"ab\0cdef".to_vec();
    assert_eq!(read_cstr(&d, 0, d.len()), b"ab".to_vec());
    assert_eq!(read_cstr(&d, 3, d.len()), b"cdef".to_vec());
    assert_eq!(read_cstr(&d, 3, 5), b"cd".to_vec());
    assert_eq!(read_cstr(&d, 9, 12), Vec::<u8>::new());
}

#[test]
fn byte_equality_and_copies() {
    let a = b"abc".to_vec();
    let b = b"abc".to_vec();
    let c = b"abd".to_vec();
    assert!(bytes_eq(&a, &b));
    assert!(!bytes_eq(&a, &c));
    assert!(!bytes_eq(&a, &a[..2]));
    assert_eq!(copy_bytes(&a), a);
}

#[test]
fn splicing_replaces_exactly_the_region() {
    let d = vec![0, 1, 2, 3, 4, 5, 6, 7];
    let p = vec![9, 9, 9];
    let s = splice_bytes(&d, 2, &p);
    assert_eq!(s, vec![0, 1, 9, 9, 9, 5, 6, 7]);
    let undo = splice_bytes(&s, 2, &vec![2, 3, 4]);
    assert_eq!(undo, d);
}
