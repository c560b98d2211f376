//! Emits, per host architecture, a fixed-form jump stub that transfers
//! control to an absolute 64-bit target address, padded with whole no-op
//! instructions to at least a requested length.

use crate::Arch;
use crate::PatchError;
use vstd::bytes::spec_u64_to_le_bytes;
use vstd::bytes::u64_to_le_bytes;
use vstd::prelude::*;

verus! {

/// `pat` repeated `k` times.
pub open spec fn repeat_pat(pat: Seq<u8>, k: nat) -> Seq<u8>
    decreases k,
{
    if k == 0 {
        Seq::empty()
    } else {
        repeat_pat(pat, (k - 1) as nat) + pat
    }
}

pub proof fn lemma_repeat_pat_len(pat: Seq<u8>, k: nat)
    ensures
        repeat_pat(pat, k).len() == k * pat.len(),
    decreases k,
{
    if k > 0 {
        let km1 = (k - 1) as nat;
        lemma_repeat_pat_len(pat, km1);
        let l = pat.len();
        assert(repeat_pat(pat, k) == repeat_pat(pat, km1) + pat);
        assert(repeat_pat(pat, k).len() == km1 * l + l);
        assert(km1 * l + l == (km1 + 1) * l) by (nonlinear_arith);
        assert(k == km1 + 1);
        assert(repeat_pat(pat, k).len() == k * l);
    } else {
        assert(repeat_pat(pat, k) == Seq::<u8>::empty());
        assert(k * pat.len() == 0);
    }
}

/// How many whole no-ops a padding loop appends that starts at `cur` bytes
/// and appends `step` bytes at a time until it has reached `want`.
pub open spec fn pad_count(cur: int, want: int, step: int) -> nat
    decreases (if cur < want { want - cur } else { 0 }),
{
    if cur >= want || step <= 0 {
        0
    } else {
        1 + pad_count(cur + step, want, step)
    }
}

/// The instruction bytes that land control at the absolute address `t`:
/// on x86-64 `mov rax, t; jmp rax`; on AArch64 `ldr x0, [pc+8]; br x0`
/// followed by `t`; on RISC-V 64 `auipc t0, 0; ld t1, 12(t0); jr t1`
/// followed by `t`.  `t` is stored little-endian in all three.
pub open spec fn stub_prefix(arch: Arch, t: u64) -> Seq<u8> {
    match arch {
        Arch::X86_64 => seq![0x48u8, 0xB8u8] + spec_u64_to_le_bytes(t) + seq![0xFFu8, 0xE0u8],
        Arch::Aarch64 => seq![0x40u8, 0x00u8, 0x00u8, 0x58u8, 0x00u8, 0x00u8, 0x1fu8, 0xd6u8]
            + spec_u64_to_le_bytes(t),
        Arch::Riscv64 => seq![
            0x97u8,
            0x02u8,
            0x00u8,
            0x00u8,
            0x03u8,
            0xb3u8,
            0xc2u8,
            0x00u8,
            0x67u8,
            0x00u8,
            0x03u8,
            0x00u8,
        ] + spec_u64_to_le_bytes(t),
    }
}

/// One no-op instruction of the architecture.
pub open spec fn nop_pattern(arch: Arch) -> Seq<u8> {
    match arch {
        Arch::X86_64 => seq![0x90u8],
        Arch::Aarch64 => seq![0x1fu8, 0x20u8, 0x03u8, 0xd5u8],
        Arch::Riscv64 => seq![0x13u8, 0x00u8, 0x00u8, 0x00u8],
    }
}

/// The smallest jump stub the architecture admits.
pub open spec fn spec_min_stub_len(arch: Arch) -> int {
    match arch {
        Arch::X86_64 => 12,
        Arch::Aarch64 => 16,
        Arch::Riscv64 => 20,
    }
}

pub fn min_stub_len(arch: Arch) -> (r: usize)
    ensures
        r == spec_min_stub_len(arch),
{
    match arch {
        Arch::X86_64 => 12,
        Arch::Aarch64 => 16,
        Arch::Riscv64 => 20,
    }
}

/// The whole emitted byte sequence: the jump stub, then whole no-ops until
/// the sequence is at least `want` bytes long.
pub open spec fn stub(arch: Arch, t: u64, want: int) -> Seq<u8> {
    stub_prefix(arch, t) + repeat_pat(
        nop_pattern(arch),
        pad_count(spec_min_stub_len(arch), want, nop_pattern(arch).len() as int),
    )
}

proof fn lemma_pad_exact(cur: int, want: int, step: int)
    requires
        1 <= step <= 4,
        cur <= want,
        (want - cur) % step == 0,
    ensures
        cur + step * pad_count(cur, want, step) == want,
    decreases pad_count(cur, want, step),
{
    if cur < want {
        assert(pad_count(cur, want, step) == 1 + pad_count(cur + step, want, step));
        assert((want - (cur + step)) % step == 0 && want - cur >= step) by (nonlinear_arith)
            requires
                step > 0 && (want - cur) % step == 0 && want - cur > 0,
        ;
        lemma_pad_exact(cur + step, want, step);
        let p = pad_count(cur + step, want, step);
        assert(step * (1 + p) == step + step * p) by (nonlinear_arith);
        assert(pad_count(cur, want, step) == 1 + p);
        assert(cur + step * pad_count(cur, want, step) == want);
    } else {
        assert(pad_count(cur, want, step) == 0);
        assert(step * pad_count(cur, want, step) == 0);
    }
}

proof fn lemma_pad_bounds(cur: int, want: int, step: int)
    requires
        1 <= step <= 4,
    ensures
        cur + step * pad_count(cur, want, step) >= want || cur >= want,
        pad_count(cur, want, step) > 0 ==> cur + step * (pad_count(cur, want, step) - 1) < want,
    decreases pad_count(cur, want, step),
{
    if cur < want {
        assert(pad_count(cur, want, step) == 1 + pad_count(cur + step, want, step));
        lemma_pad_bounds(cur + step, want, step);
        let p = pad_count(cur + step, want, step);
        let pc = pad_count(cur, want, step);
        assert(pc == 1 + p);
        assert(step * (1 + p) == step + step * p) by (nonlinear_arith);
        assert(cur + step * pc >= want);
        if p == 0 {
            assert(step * 0 == 0) by (nonlinear_arith);
            assert(pc - 1 == 0);
            assert(step * (pc - 1) == 0);
            assert(cur + step * (pc - 1) < want);
        } else {
            assert(step * p == step + step * (p - 1)) by (nonlinear_arith);
            assert(step * (pc - 1) == step * p);
            assert(cur + step * (pc - 1) < want);
        }
    } else {
        assert(pad_count(cur, want, step) == 0);
        assert(step * pad_count(cur, want, step) == 0);
    }
}

/// Law: an emitted stub never falls short of the requested length, never
/// falls short of the architecture's minimum, and exceeds the request by
/// less than one whole no-op.
pub proof fn lemma_stub_len(arch: Arch, t: u64, want: int)
    ensures
        stub(arch, t, want).len() >= spec_min_stub_len(arch),
        stub(arch, t, want).len() >= want,
        want >= spec_min_stub_len(arch) ==> stub(arch, t, want).len() < want + nop_pattern(
            arch,
        ).len(),
{
    let min = spec_min_stub_len(arch);
    let step = nop_pattern(arch).len() as int;
    let k = pad_count(min, want, step);
    lemma_repeat_pat_len(nop_pattern(arch), k);
    lemma_pad_bounds(min, want, step);
    vstd::bytes::lemma_auto_spec_u64_to_from_le_bytes();
    assert(stub_prefix(arch, t).len() == min);
    assert(k * step == step * k) by (nonlinear_arith);
    assert(stub(arch, t, want).len() == min + step * k);
    if min >= want {
        assert(k == 0);
        assert(step * 0 == 0) by (nonlinear_arith);
    } else {
        assert(min + step * k >= want);
    }
    if want >= min {
        if k > 0 {
            assert(min + step * (k - 1) < want);
            assert(step * k == step * (k - 1) + step) by (nonlinear_arith);
        }
    }
}

/// Law: for a slot at least the minimum stub long whose extra room is a
/// whole number of no-ops -- as every slot is whose padded size is a
/// multiple of the no-op length -- the emitted stub fills it exactly.
pub proof fn lemma_stub_fits(arch: Arch, t: u64, want: int)
    requires
        want >= spec_min_stub_len(arch),
        (want - spec_min_stub_len(arch)) % (nop_pattern(arch).len() as int) == 0,
    ensures
        stub(arch, t, want).len() == want,
{
    let min = spec_min_stub_len(arch);
    let step = nop_pattern(arch).len() as int;
    let k = pad_count(min, want, step);
    lemma_repeat_pat_len(nop_pattern(arch), k);
    lemma_pad_exact(min, want, step);
    vstd::bytes::lemma_auto_spec_u64_to_from_le_bytes();
    assert(stub_prefix(arch, t).len() == min);
    assert(k * step == step * k) by (nonlinear_arith);
    assert(stub(arch, t, want).len() == min + step * k);
}

/// Appends one-byte or whole four-byte no-ops of the architecture until
/// the buffer is at least `symbol_len` long.
fn pad_nops(opcodes: &mut Vec<u8>, symbol_len: usize, arch: Arch)
    ensures
        final(opcodes)@ == old(opcodes)@ + repeat_pat(
            nop_pattern(arch),
            pad_count(old(opcodes)@.len() as int, symbol_len as int, nop_pattern(arch).len() as int),
        ),
{
    let ghost start = opcodes@;
    let ghost step = nop_pattern(arch).len() as int;
    let ghost mut k: nat = 0;
    proof {
        assert(opcodes@ =~= start + repeat_pat(nop_pattern(arch), 0));
    }
    while opcodes.len() < symbol_len
        invariant
            opcodes@ == start + repeat_pat(nop_pattern(arch), k),
            opcodes@.len() == start.len() + k * step,
            step == nop_pattern(arch).len(),
            1 <= step <= 4,
            pad_count(start.len() as int, symbol_len as int, step) == k + pad_count(
                opcodes@.len() as int,
                symbol_len as int,
                step,
            ),
        decreases pad_count(opcodes@.len() as int, symbol_len as int, step),
    {
        proof {
            assert(pad_count(opcodes@.len() as int, symbol_len as int, step) == 1 + pad_count(
                opcodes@.len() + step,
                symbol_len as int,
                step,
            ));
        }
        match arch {
            Arch::X86_64 => {
                opcodes.push(0x90);
            },
            Arch::Aarch64 => {
                opcodes.push(0x1f);
                opcodes.push(0x20);
                opcodes.push(0x03);
                opcodes.push(0xd5);
            },
            Arch::Riscv64 => {
                opcodes.push(0x13);
                opcodes.push(0x00);
                opcodes.push(0x00);
                opcodes.push(0x00);
            },
        }
        proof {
            assert(repeat_pat(nop_pattern(arch), k + 1) == repeat_pat(nop_pattern(arch), k)
                + nop_pattern(arch));
            assert(opcodes@ =~= start + repeat_pat(nop_pattern(arch), k + 1));
            assert((k + 1) * step == k * step + step) by (nonlinear_arith);
            k = k + 1;
        }
    }
    proof {
        assert(pad_count(opcodes@.len() as int, symbol_len as int, step) == 0);
        assert(opcodes@ =~= start + repeat_pat(
            nop_pattern(arch),
            pad_count(start.len() as int, symbol_len as int, step),
        ));
    }
}

/// The x86-64 form: `48 B8 <t little-endian> FF E0`, then single-byte
/// `90` no-ops up to `symbol_len`.  The slot must have room for the
/// twelve-byte stub.
pub fn _generate_opcodes_x86_64(jmp_target: usize, symbol_len: usize) -> (r: Vec<u8>)
    requires
        symbol_len >= 12,
    ensures
        r@ == stub(Arch::X86_64, jmp_target as u64, symbol_len as int),
        r@.len() == symbol_len,
{
    let t = jmp_target as u64;
    let mut opcodes: Vec<u8> = Vec::new();
    opcodes.push(0x48);
    opcodes.push(0xB8);
    let mut addr = u64_to_le_bytes(t);
    opcodes.append(&mut addr);
    opcodes.push(0xFF);
    opcodes.push(0xE0);
    proof {
        assert(opcodes@ =~= stub_prefix(Arch::X86_64, t));
    }
    pad_nops(&mut opcodes, symbol_len, Arch::X86_64);
    proof {
        lemma_stub_fits(Arch::X86_64, t, symbol_len as int);
    }
    opcodes
}

/// The AArch64 form: `ldr x0, [pc+8]; br x0; <t little-endian>`, then
/// whole four-byte no-ops until `symbol_len` is reached.
pub fn _generate_opcodes_aarch64(jmp_target: usize, symbol_len: usize) -> (r: Vec<u8>)
    ensures
        r@ == stub(Arch::Aarch64, jmp_target as u64, symbol_len as int),
{
    let t = jmp_target as u64;
    let mut opcodes: Vec<u8> = Vec::new();
    opcodes.push(0x40);
    opcodes.push(0x00);
    opcodes.push(0x00);
    opcodes.push(0x58);
    opcodes.push(0x00);
    opcodes.push(0x00);
    opcodes.push(0x1f);
    opcodes.push(0xd6);
    let mut addr = u64_to_le_bytes(t);
    opcodes.append(&mut addr);
    proof {
        assert(opcodes@ =~= stub_prefix(Arch::Aarch64, t));
    }
    pad_nops(&mut opcodes, symbol_len, Arch::Aarch64);
    opcodes
}

/// The RISC-V 64 form: `auipc t0, 0; ld t1, 12(t0); jr t1;
/// <t little-endian>`, then whole four-byte no-ops until `symbol_len`
/// is reached.
pub fn _generate_opcodes_riscv64(jmp_target: usize, symbol_len: usize) -> (r: Vec<u8>)
    ensures
        r@ == stub(Arch::Riscv64, jmp_target as u64, symbol_len as int),
{
    let t = jmp_target as u64;
    let mut opcodes: Vec<u8> = Vec::new();
    opcodes.push(0x97);
    opcodes.push(0x02);
    opcodes.push(0x00);
    opcodes.push(0x00);
    opcodes.push(0x03);
    opcodes.push(0xb3);
    opcodes.push(0xc2);
    opcodes.push(0x00);
    opcodes.push(0x67);
    opcodes.push(0x00);
    opcodes.push(0x03);
    opcodes.push(0x00);
    let mut addr = u64_to_le_bytes(t);
    opcodes.append(&mut addr);
    proof {
        assert(opcodes@ =~= stub_prefix(Arch::Riscv64, t));
    }
    pad_nops(&mut opcodes, symbol_len, Arch::Riscv64);
    opcodes
}

/// Law (symbol-slot fit): a stub emitted for a symbol slot fills it
/// exactly -- neither scribbling past the next symbol nor leaving old
/// bytes behind -- whenever the slot holds the minimum stub and its
/// padded size is a whole multiple of the no-op length, as every slot is
/// whose `.text` alignment is one.
pub proof fn lemma_stub_fills_slot(arch: Arch, t: u64, want: int)
    requires
        want >= spec_min_stub_len(arch),
        want % (nop_pattern(arch).len() as int) == 0,
    ensures
        stub(arch, t, want).len() == want,
{
    match arch {
        Arch::X86_64 => lemma_stub_fits(arch, t, want),
        Arch::Aarch64 => {
            assert((want - 16) % 4 == 0) by (nonlinear_arith)
                requires
                    want % 4 == 0,
            ;
            lemma_stub_fits(arch, t, want);
        },
        Arch::Riscv64 => {
            assert((want - 20) % 4 == 0) by (nonlinear_arith)
                requires
                    want % 4 == 0,
            ;
            lemma_stub_fits(arch, t, want);
        },
    }
}

/// Emits the jump stub for `arch`, padded to at least `symbol_len`; the
/// slot must have room for the architecture's minimum stub.
pub fn generate_opcodes(arch: Arch, jmp_target: usize, symbol_len: usize) -> (r: Vec<u8>)
    requires
        symbol_len >= spec_min_stub_len(arch),
    ensures
        r@ == stub(arch, jmp_target as u64, symbol_len as int),
        r@.len() >= symbol_len,
{
    proof {
        lemma_stub_len(arch, jmp_target as u64, symbol_len as int);
    }
    match arch {
        Arch::X86_64 => _generate_opcodes_x86_64(jmp_target, symbol_len),
        Arch::Aarch64 => _generate_opcodes_aarch64(jmp_target, symbol_len),
        Arch::Riscv64 => _generate_opcodes_riscv64(jmp_target, symbol_len),
    }
}

/// As `generate_opcodes`, but reports a slot below the architecture's
/// minimum stub length as an error instead of demanding it of the caller.
pub fn generate_opcodes_checked(arch: Arch, jmp_target: usize, symbol_len: usize) -> (r: Result<
    Vec<u8>,
    PatchError,
>)
    ensures
        symbol_len >= spec_min_stub_len(arch) <==> r is Ok,
        r matches Ok(v) ==> v@ == stub(arch, jmp_target as u64, symbol_len as int) && v@.len()
            >= symbol_len,
        r matches Err(e) ==> e == PatchError::StubTooSmall,
{
    if symbol_len < min_stub_len(arch) {
        return Err(PatchError::StubTooSmall);
    }
    Ok(generate_opcodes(arch, jmp_target, symbol_len))
}

} // verus!
