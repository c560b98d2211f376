use tpom::opcodes::{
    _generate_opcodes_aarch64, _generate_opcodes_riscv64, _generate_opcodes_x86_64,
    generate_opcodes, generate_opcodes_checked, min_stub_len,
};
use tpom::{Arch, PatchError};

const TARGET: usize = 0x12ff34ff56ff78ff;

fn le_target() -> Vec<u8> {
    vec![0xFF, 0x78, 0xFF, 0x56, 0xFF, 0x34, 0xFF, 0x12]
}

fn x86_stub() -> Vec<u8> {
    let mut v = vec![0x48, 0xB8];
    v.extend_from_slice(&le_target());
    v.extend_from_slice(&[0xFF, 0xE0]);
    v
}

fn aarch64_stub() -> Vec<u8> {
    let mut v = vec![0x40, 0x00, 0x00, 0x58, 0x00, 0x00, 0x1F, 0xD6];
    v.extend_from_slice(&le_target());
    v
}

fn riscv64_stub() -> Vec<u8> {
    let mut v = vec![0x97, 0x02, 0x00, 0x00, 0x03, 0xB3, 0xC2, 0x00, 0x67, 0x00, 0x03, 0x00];
    v.extend_from_slice(&le_target());
    v
}

#[test]
fn test_generate_riscv64_opcodes_with_padding() {
    let mut expected = riscv64_stub();
    expected.extend_from_slice(&[0x13, 0x00, 0x00, 0x00]);
    expected.extend_from_slice(&[0x13, 0x00, 0x00, 0x00]);
    expected.extend_from_slice(&[0x13, 0x00, 0x00, 0x00]);
    assert_eq!(expected, _generate_opcodes_riscv64(TARGET, 32));
}

#[test]
fn test_generate_aarch64_opcodes_with_padding() {
    let mut expected = aarch64_stub();
    for _ in 0..4 {
        expected.extend_from_slice(&[0x1F, 0x20, 0x03, 0xD5]);
    }
    assert_eq!(expected, _generate_opcodes_aarch64(TARGET, 32));
}

#[test]
fn test_generate_x86_64_opcodes_with_padding() {
    let mut expected = x86_stub();
    expected.extend_from_slice(&[0x90, 0x90, 0x90, 0x90]);
    assert_eq!(expected, _generate_opcodes_x86_64(TARGET, 16));
}

#[test]
fn test_generate_riscv64_opcodes_no_padding() {
    // A 12-byte request still yields the whole 20-byte stub.
    assert_eq!(riscv64_stub(), _generate_opcodes_riscv64(TARGET, 12));
}

#[test]
fn test_generate_aarch64_opcodes_no_padding() {
    // A 12-byte request still yields the whole 16-byte stub.
    assert_eq!(aarch64_stub(), _generate_opcodes_aarch64(TARGET, 12));
}

#[test]
fn test_generate_x86_64_opcodes_no_padding() {
    assert_eq!(x86_stub(), _generate_opcodes_x86_64(TARGET, 12));
}

#[test]
fn generate_opcodes_dispatches_per_arch() {
    assert_eq!(
        generate_opcodes(Arch::X86_64, TARGET, 12),
        _generate_opcodes_x86_64(TARGET, 12)
    );
    assert_eq!(
        generate_opcodes(Arch::Aarch64, TARGET, 16),
        _generate_opcodes_aarch64(TARGET, 16)
    );
    assert_eq!(
        generate_opcodes(Arch::Riscv64, TARGET, 20),
        _generate_opcodes_riscv64(TARGET, 20)
    );
}

#[test]
fn checked_generation_rejects_short_slots() {
    assert_eq!(
        generate_opcodes_checked(Arch::X86_64, TARGET, 11),
        Err(PatchError::StubTooSmall)
    );
    assert_eq!(
        generate_opcodes_checked(Arch::Aarch64, TARGET, 15),
        Err(PatchError::StubTooSmall)
    );
    assert_eq!(
        generate_opcodes_checked(Arch::Riscv64, TARGET, 19),
        Err(PatchError::StubTooSmall)
    );
    assert_eq!(
        generate_opcodes_checked(Arch::X86_64, TARGET, 12),
        Ok(x86_stub())
    );
}

#[test]
fn minimum_stub_lengths() {
    assert_eq!(min_stub_len(Arch::X86_64), 12);
    assert_eq!(min_stub_len(Arch::Aarch64), 16);
    assert_eq!(min_stub_len(Arch::Riscv64), 20);
}

#[test]
fn stub_fills_aligned_slot_exactly() {
    // A slot whose padded size is a multiple of the no-op length is
    // filled to the byte.
    for len in [16usize, 32, 48, 128] {
        assert_eq!(generate_opcodes(Arch::Aarch64, TARGET, len).len(), len);
        assert_eq!(generate_opcodes(Arch::X86_64, TARGET, len).len(), len);
        if len >= 20 {
            assert_eq!(generate_opcodes(Arch::Riscv64, TARGET, len).len(), len);
        }
    }
}
