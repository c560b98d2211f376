//! The patcher facade's verified core: the vDSO snapshot, symbol lookup
//! by kind, the byte-exact plan of an overwrite, and the laws that make
//! restoration a round trip.
//!
//! Reading the live mapping, changing page protections and copying bytes
//! into it stay with the unverified embedder; it hands this module the
//! snapshot bytes and gets the exact bytes to write back.

use crate::auxv::AuxVecValues;
use crate::bytes::lemma_splice_restore;
use crate::bytes::splice;
use crate::elf;
use crate::elf::parse_error;
use crate::elf::row_of;
use crate::elf::spec_arch_of_machine;
use crate::elf::spec_dynsyms;
use crate::elf::valid_ehdr;
use crate::elf::DynSym;
use crate::elf::SymRow;
use crate::opcodes::nop_pattern;
use crate::opcodes::spec_min_stub_len;
use crate::opcodes::stub;
use crate::Arch;
use crate::BackupEntry;
use crate::Kind;
use crate::PatchError;
use crate::VDSOFun;
use vstd::arithmetic::div_mod::lemma_fundamental_div_mod;
use vstd::arithmetic::div_mod::lemma_mod_bound;
use vstd::arithmetic::div_mod::lemma_mod_multiples_basic;
use vstd::prelude::*;

verus! {

/// The vDSO as discovered: its base address and page size from the
/// auxiliary vector, and a snapshot of the raw image bytes.  The snapshot
/// is taken once; patching the live mapping never changes it, so it stays
/// both the parse input and the authoritative original for restoration.
#[allow(non_camel_case_types)]
pub struct vDSO {
    pub avv: AuxVecValues,
    pub data: Vec<u8>,
}

/// The symbol name a kind bears on an architecture, or `None` where the
/// kind has no vDSO symbol there: AArch64 exports no `time`.  Only the
/// prefixed names count; the bare aliases that share their slots are
/// ignored on purpose.
pub open spec fn spec_symbol_name_for(kind: Kind, arch: Arch) -> Option<Seq<u8>> {
    match arch {
        Arch::Aarch64 => match kind {
            // "__kernel_clock_gettime"
            Kind::GetTime => Some(
                seq![
                    0x5fu8, 0x5fu8, 0x6bu8, 0x65u8, 0x72u8, 0x6eu8, 0x65u8, 0x6cu8, 0x5fu8, 0x63u8,
                    0x6cu8, 0x6fu8, 0x63u8, 0x6bu8, 0x5fu8, 0x67u8, 0x65u8, 0x74u8, 0x74u8, 0x69u8,
                    0x6du8, 0x65u8,
                ],
            ),
            // "__kernel_gettimeofday"
            Kind::GetTimeOfDay => Some(
                seq![
                    0x5fu8, 0x5fu8, 0x6bu8, 0x65u8, 0x72u8, 0x6eu8, 0x65u8, 0x6cu8, 0x5fu8, 0x67u8,
                    0x65u8, 0x74u8, 0x74u8, 0x69u8, 0x6du8, 0x65u8, 0x6fu8, 0x66u8, 0x64u8, 0x61u8,
                    0x79u8,
                ],
            ),
            // "__kernel_clock_getres"
            Kind::ClockGetRes => Some(
                seq![
                    0x5fu8, 0x5fu8, 0x6bu8, 0x65u8, 0x72u8, 0x6eu8, 0x65u8, 0x6cu8, 0x5fu8, 0x63u8,
                    0x6cu8, 0x6fu8, 0x63u8, 0x6bu8, 0x5fu8, 0x67u8, 0x65u8, 0x74u8, 0x72u8, 0x65u8,
                    0x73u8,
                ],
            ),
            Kind::Time => None,
        },
        _ => match kind {
            // "__vdso_clock_gettime"
            Kind::GetTime => Some(
                seq![
                    0x5fu8, 0x5fu8, 0x76u8, 0x64u8, 0x73u8, 0x6fu8, 0x5fu8, 0x63u8, 0x6cu8, 0x6fu8,
                    0x63u8, 0x6bu8, 0x5fu8, 0x67u8, 0x65u8, 0x74u8, 0x74u8, 0x69u8, 0x6du8, 0x65u8,
                ],
            ),
            // "__vdso_gettimeofday"
            Kind::GetTimeOfDay => Some(
                seq![
                    0x5fu8, 0x5fu8, 0x76u8, 0x64u8, 0x73u8, 0x6fu8, 0x5fu8, 0x67u8, 0x65u8, 0x74u8,
                    0x74u8, 0x69u8, 0x6du8, 0x65u8, 0x6fu8, 0x66u8, 0x64u8, 0x61u8, 0x79u8,
                ],
            ),
            // "__vdso_clock_getres"
            Kind::ClockGetRes => Some(
                seq![
                    0x5fu8, 0x5fu8, 0x76u8, 0x64u8, 0x73u8, 0x6fu8, 0x5fu8, 0x63u8, 0x6cu8, 0x6fu8,
                    0x63u8, 0x6bu8, 0x5fu8, 0x67u8, 0x65u8, 0x74u8, 0x72u8, 0x65u8, 0x73u8,
                ],
            ),
            // "__vdso_time"
            Kind::Time => Some(
                seq![
                    0x5fu8, 0x5fu8, 0x76u8, 0x64u8, 0x73u8, 0x6fu8, 0x5fu8, 0x74u8, 0x69u8, 0x6du8,
                    0x65u8,
                ],
            ),
        },
    }
}

/// The symbol name for `kind` on `arch`, as bytes.
pub fn symbol_name_for(kind: Kind, arch: Arch) -> (r: Option<Vec<u8>>)
    ensures
        r is Some <==> spec_symbol_name_for(kind, arch) is Some,
        r matches Some(v) ==> Some(v@) == spec_symbol_name_for(kind, arch),
{
    let v: Vec<u8> = match arch {
        Arch::Aarch64 => match kind {
            Kind::GetTime => vec![
                0x5fu8, 0x5fu8, 0x6bu8, 0x65u8, 0x72u8, 0x6eu8, 0x65u8, 0x6cu8, 0x5fu8, 0x63u8,
                0x6cu8, 0x6fu8, 0x63u8, 0x6bu8, 0x5fu8, 0x67u8, 0x65u8, 0x74u8, 0x74u8, 0x69u8,
                0x6du8, 0x65u8,
            ],
            Kind::GetTimeOfDay => vec![
                0x5fu8, 0x5fu8, 0x6bu8, 0x65u8, 0x72u8, 0x6eu8, 0x65u8, 0x6cu8, 0x5fu8, 0x67u8,
                0x65u8, 0x74u8, 0x74u8, 0x69u8, 0x6du8, 0x65u8, 0x6fu8, 0x66u8, 0x64u8, 0x61u8,
                0x79u8,
            ],
            Kind::ClockGetRes => vec![
                0x5fu8, 0x5fu8, 0x6bu8, 0x65u8, 0x72u8, 0x6eu8, 0x65u8, 0x6cu8, 0x5fu8, 0x63u8,
                0x6cu8, 0x6fu8, 0x63u8, 0x6bu8, 0x5fu8, 0x67u8, 0x65u8, 0x74u8, 0x72u8, 0x65u8,
                0x73u8,
            ],
            Kind::Time => {
                return None;
            },
        },
        _ => match kind {
            Kind::GetTime => vec![
                0x5fu8, 0x5fu8, 0x76u8, 0x64u8, 0x73u8, 0x6fu8, 0x5fu8, 0x63u8, 0x6cu8, 0x6fu8,
                0x63u8, 0x6bu8, 0x5fu8, 0x67u8, 0x65u8, 0x74u8, 0x74u8, 0x69u8, 0x6du8, 0x65u8,
            ],
            Kind::GetTimeOfDay => vec![
                0x5fu8, 0x5fu8, 0x76u8, 0x64u8, 0x73u8, 0x6fu8, 0x5fu8, 0x67u8, 0x65u8, 0x74u8,
                0x74u8, 0x69u8, 0x6du8, 0x65u8, 0x6fu8, 0x66u8, 0x64u8, 0x61u8, 0x79u8,
            ],
            Kind::ClockGetRes => vec![
                0x5fu8, 0x5fu8, 0x76u8, 0x64u8, 0x73u8, 0x6fu8, 0x5fu8, 0x63u8, 0x6cu8, 0x6fu8,
                0x63u8, 0x6bu8, 0x5fu8, 0x67u8, 0x65u8, 0x74u8, 0x72u8, 0x65u8, 0x73u8,
            ],
            Kind::Time => vec![
                0x5fu8, 0x5fu8, 0x76u8, 0x64u8, 0x73u8, 0x6fu8, 0x5fu8, 0x74u8, 0x69u8, 0x6du8,
                0x65u8,
            ],
        },
    };
    proof {
        assert(Some(v@) =~= spec_symbol_name_for(kind, arch));
    }
    Some(v)
}

/// Index of the first row named `name` among the first `n`, or -1.
pub open spec fn entry_idx(rows: Seq<SymRow>, name: Seq<u8>, n: int) -> int
    decreases n,
{
    if n <= 0 {
        -1
    } else if entry_idx(rows, name, n - 1) >= 0 {
        entry_idx(rows, name, n - 1)
    } else if rows[n - 1].name == name {
        n - 1
    } else {
        -1
    }
}

proof fn lemma_entry_idx_stable(rows: Seq<SymRow>, name: Seq<u8>, m: int, n: int)
    requires
        0 <= m <= n,
        entry_idx(rows, name, m) >= 0,
    ensures
        entry_idx(rows, name, n) == entry_idx(rows, name, m),
    decreases n - m,
{
    if n > m {
        lemma_entry_idx_stable(rows, name, m, n - 1);
    }
}

/// The architecture the image's own machine field names, or `None` for a
/// header that cannot be read or a machine not supported here.
pub open spec fn vdso_arch(d: Seq<u8>) -> Option<Arch> {
    if valid_ehdr(d) {
        spec_arch_of_machine(elf::ehdr_machine(d))
    } else {
        None
    }
}

/// The hook that `entry(kind)` finds: the first symbol row bearing the
/// kind's name on the image's architecture.
pub open spec fn spec_entry(d: Seq<u8>, wanted: Kind) -> Option<SymRow> {
    match vdso_arch(d) {
        None => None,
        Some(arch) => match spec_symbol_name_for(wanted, arch) {
            None => None,
            Some(name) => {
                if parse_error(d) is Some {
                    None
                } else {
                    let rows = spec_dynsyms(d);
                    let i = entry_idx(rows, name, rows.len() as int);
                    if i >= 0 {
                        Some(rows[i])
                    } else {
                        None
                    }
                }
            },
        },
    }
}

/// First symbol in `syms` whose name is `name`.
fn find_sym(syms: &Vec<DynSym>, name: &Vec<u8>, Ghost(rows): Ghost<Seq<SymRow>>) -> (r: Option<
    usize,
>)
    requires
        syms@.len() == rows.len(),
        forall|k: int| 0 <= k < rows.len() ==> row_of(#[trigger] syms@[k]) == rows[k],
    ensures
        r matches Some(i) ==> i < rows.len() && entry_idx(rows, name@, rows.len() as int) == i,
        r is None <==> entry_idx(rows, name@, rows.len() as int) == -1,
{
    let n = syms.len();
    let mut i: usize = 0;
    while i < n
        invariant
            n == syms@.len() == rows.len(),
            i <= n,
            forall|k: int| 0 <= k < rows.len() ==> row_of(#[trigger] syms@[k]) == rows[k],
            entry_idx(rows, name@, i as int) == -1,
        decreases n - i,
    {
        if crate::bytes::bytes_eq(syms[i].name.as_slice(), name.as_slice()) {
            proof {
                assert(rows[i as int].name == name@);
                assert(entry_idx(rows, name@, i + 1) == i);
                lemma_entry_idx_stable(rows, name@, i + 1, n as int);
            }
            return Some(i);
        }
        i = i + 1;
    }
    None
}

impl vDSO {
    /// A vDSO from its discovered parts: the auxiliary-vector values and
    /// the snapshot of the image bytes.
    pub fn from_parts(avv: AuxVecValues, data: Vec<u8>) -> (r: vDSO)
        ensures
            r.avv == avv,
            r.data == data,
    {
        vDSO { avv, data }
    }

    /// The architecture the image says it is for.
    pub fn arch(&self) -> (r: Option<Arch>)
        ensures
            r == vdso_arch(self.data@),
    {
        match elf::parse_elf_header(&self.data) {
            Ok(h) => elf::arch_of_machine(h.machine),
            Err(_) => None,
        }
    }

    /// The exported dynamic symbols of the snapshot.
    pub fn dynsyms(&self) -> (r: Result<Vec<DynSym>, PatchError>)
        ensures
            r is Ok <==> parse_error(self.data@) is None,
            r matches Err(e) ==> parse_error(self.data@) == Some(e),
            r matches Ok(v) ==> v@.len() == spec_dynsyms(self.data@).len() && (forall|k: int|
                0 <= k < v@.len() ==> row_of(#[trigger] v@[k]) == spec_dynsyms(self.data@)[k]),
    {
        elf::dynsyms(&self.data)
    }

    /// The hook for `wanted`: the first dynamic symbol bearing the kind's
    /// name on this image's architecture, or `None` when the kind has no
    /// symbol here or the image cannot be parsed.
    pub fn entry(&self, wanted: Kind) -> (r: Option<VDSOFun>)
        ensures
            r is Some <==> spec_entry(self.data@, wanted) is Some,
            r matches Some(f) ==> {
                let row = spec_entry(self.data@, wanted)->Some_0;
                &&& f.name@ == row.name
                &&& f.addr == row.address
                &&& f.size == row.size
            },
    {
        let arch = match self.arch() {
            Some(a) => a,
            None => {
                return None;
            },
        };
        let name = match symbol_name_for(wanted, arch) {
            Some(n) => n,
            None => {
                return None;
            },
        };
        let syms = match self.dynsyms() {
            Ok(s) => s,
            Err(_) => {
                return None;
            },
        };
        match find_sym(&syms, &name, Ghost(spec_dynsyms(self.data@))) {
            Some(i) => {
                let s = &syms[i];
                Some(VDSOFun { name: crate::bytes::copy_bytes(&s.name), addr: s.address, size: s.size })
            },
            None => None,
        }
    }

    /// The bytes of the cached snapshot at `[offset, offset + len)` --
    /// unaffected by any patch to the live mapping.
    pub fn range_code(&self, offset: usize, len: usize) -> (r: Option<Vec<u8>>)
        ensures
            r is Some <==> offset + len <= self.data@.len(),
            r matches Some(v) ==> v@ == self.data@.subrange(offset as int, offset + len),
    {
        if len > self.data.len() || offset > self.data.len() - len {
            return None;
        }
        let s = vstd::slice::slice_subrange(self.data.as_slice(), offset, offset + len);
        Some(vstd::slice::slice_to_vec(s))
    }

    /// The snapshot bytes of the first symbol named `symbol_name`, one
    /// whole padded slot.
    pub fn symbol_code(&self, symbol_name: &Vec<u8>) -> (r: Option<Vec<u8>>)
        ensures
            r is Some <==> spec_symbol_code(self.data@, symbol_name@) is Some,
            r matches Some(v) ==> Some(v@) == spec_symbol_code(self.data@, symbol_name@),
    {
        let syms = match self.dynsyms() {
            Ok(s) => s,
            Err(_) => {
                return None;
            },
        };
        match find_sym(&syms, symbol_name, Ghost(spec_dynsyms(self.data@))) {
            Some(i) => {
                let s = &syms[i];
                self.range_code(s.address, s.size)
            },
            None => None,
        }
    }

    /// Everything about an overwrite that is computation: the jump-stub
    /// bytes that fill the symbol's slot and point at `trampoline`, and
    /// the backup of the bytes the stub replaces.  The embedder copies the
    /// stub into the live mapping and keeps the backup for `restore`.
    pub fn prepare_overwrite(&self, f: &VDSOFun, trampoline: usize) -> (r: Result<
        (Vec<u8>, BackupEntry),
        PatchError,
    >)
        ensures
            ({
                let d = self.data@;
                match vdso_arch(d) {
                    None => r matches Err(e) && e == PatchError::BadElf,
                    Some(arch) => {
                        if f.size < spec_min_stub_len(arch) {
                            r matches Err(e) && e == PatchError::StubTooSmall
                        } else if f.addr + f.size > d.len() {
                            r matches Err(e) && e == PatchError::BadElf
                        } else {
                            r matches Ok(p) && {
                                &&& p.0@ == stub(arch, trampoline as u64, f.size as int)
                                &&& p.0@.len() >= f.size
                                &&& p.1.addr == f.addr
                                &&& p.1.data@ == d.subrange(f.addr as int, f.addr + f.size)
                                &&& p.1.data@.len() == f.size
                            }
                        }
                    },
                }
            }),
    {
        let arch = match self.arch() {
            Some(a) => a,
            None => {
                return Err(PatchError::BadElf);
            },
        };
        let opcodes = match crate::opcodes::generate_opcodes_checked(arch, trampoline, f.size) {
            Ok(o) => o,
            Err(e) => {
                return Err(e);
            },
        };
        let backup = match self.range_code(f.addr, f.size) {
            Some(b) => b,
            None => {
                return Err(PatchError::BadElf);
            },
        };
        Ok((opcodes, BackupEntry { addr: f.addr, data: backup }))
    }

    /// The page-aligned length that a protection change on this snapshot's
    /// mapping must cover.
    pub fn protect_len(&self) -> (r: usize)
        requires
            self.avv.page_size > 0,
            self.data@.len() + self.avv.page_size <= usize::MAX,
        ensures
            (r as int) % (self.avv.page_size as int) == 0,
            self.data@.len() <= r < self.data@.len() + self.avv.page_size,
    {
        page_aligned_len(self.data.len(), self.avv.page_size)
    }
}

/// What the first symbol named `name` covers of the image, as bytes.
pub open spec fn spec_symbol_code(d: Seq<u8>, name: Seq<u8>) -> Option<Seq<u8>> {
    if parse_error(d) is Some {
        None
    } else {
        let rows = spec_dynsyms(d);
        let i = entry_idx(rows, name, rows.len() as int);
        if i >= 0 && rows[i].address + rows[i].size <= d.len() {
            Some(d.subrange(rows[i].address, rows[i].address + rows[i].size))
        } else {
            None
        }
    }
}

/// `len` rounded up to the next multiple of the page size: protection
/// changes operate on whole pages.
pub fn page_aligned_len(len: usize, page: usize) -> (r: usize)
    requires
        page > 0,
        len + page <= usize::MAX,
    ensures
        (r as int) % (page as int) == 0,
        len <= r < len + page,
{
    let q = (len + page - 1) / page;
    proof {
        let x = (len + page - 1) as int;
        let p = page as int;
        lemma_fundamental_div_mod(x, p);
        lemma_mod_bound(x, p);
        lemma_mod_multiples_basic(x / p, p);
        assert(p * (x / p) == (x / p) * p) by (nonlinear_arith);
    }
    q * page
}

/// Law (restoration round-trip): overwrite a symbol slot with the jump
/// stub emitted for it, write the captured bytes back, and the image is
/// byte-for-byte what it was -- provided the slot is at least the minimum
/// stub long and its padding is a whole number of no-ops, which holds of
/// every slot whose padded size is a multiple of the no-op length.
pub proof fn lemma_overwrite_restore(d: Seq<u8>, offset: int, size: int, arch: Arch, t: u64)
    requires
        0 <= offset,
        offset + size <= d.len(),
        size >= spec_min_stub_len(arch),
        (size - spec_min_stub_len(arch)) % (nop_pattern(arch).len() as int) == 0,
    ensures
        splice(splice(d, offset, stub(arch, t, size)), offset, d.subrange(offset, offset + size))
            == d,
{
    crate::opcodes::lemma_stub_fits(arch, t, size);
    lemma_splice_restore(d, offset, stub(arch, t, size));
}

/// Law (symbol-slot fit): a stub emitted for any enumerated symbol fills
/// the symbol's padded slot exactly, as soon as the slot holds the
/// architecture's minimum stub and the image's `.text` alignment is a
/// whole number of no-ops -- every symbol's padded size is a multiple of
/// that alignment.
pub proof fn lemma_stub_fits_symbol_slot(d: Seq<u8>, k: int, arch: Arch, t: u64)
    requires
        elf::text_resolved(d),
        0 <= k < spec_dynsyms(d).len(),
        elf::text_align(d) % (nop_pattern(arch).len() as int) == 0,
        spec_dynsyms(d)[k].size >= spec_min_stub_len(arch),
    ensures
        stub(arch, t, spec_dynsyms(d)[k].size).len() == spec_dynsyms(d)[k].size,
{
    elf::lemma_symbol_sizes_aligned(d, elf::sym_count(d));
    let a = elf::text_align(d);
    let s = spec_dynsyms(d)[k].size;
    let nl = nop_pattern(arch).len() as int;
    match arch {
        Arch::X86_64 => assert(nl == 1),
        Arch::Aarch64 => assert(nl == 4),
        Arch::Riscv64 => assert(nl == 4),
    }
    lemma_fundamental_div_mod(s, a);
    lemma_fundamental_div_mod(a, nl);
    assert(s == ((a / nl) * (s / a)) * nl) by (nonlinear_arith)
        requires
            s == a * (s / a) + s % a && s % a == 0 && a == nl * (a / nl) + a % nl && a % nl == 0,
    ;
    lemma_mod_multiples_basic((a / nl) * (s / a), nl);
    crate::opcodes::lemma_stub_fills_slot(arch, t, s);
}

/// Law (absent kind): an AArch64 vDSO exports no `time` symbol, so asking
/// for that hook yields none, whatever the image holds.
pub proof fn lemma_no_time_on_aarch64(d: Seq<u8>)
    requires
        vdso_arch(d) == Some(Arch::Aarch64),
    ensures
        spec_entry(d, Kind::Time) is None,
{
}

} // verus!
