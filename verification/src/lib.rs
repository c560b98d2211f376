//! In-process redirection of the time routines exported by the Linux vDSO.
//!
//! The crate's verified core works on plain values: it parses the auxiliary
//! vector and the ELF image of the vDSO, emits position-independent jump
//! stubs for the host architecture, and plans the byte-for-byte overwrite
//! and restoration of a symbol's body.  Reading the live mapping, changing
//! page protections and copying bytes into it are left to an unverified
//! embedder, which hands this crate plain bytes and gets plain bytes back.

use vstd::prelude::*;

pub mod auxv;
pub mod bytes;
pub mod elf;
pub mod opcodes;
pub mod trampolines;
pub mod vdso;

verus! {

/// Seconds as the kernel's `time_t` carries them on 64-bit Linux.
pub type Time = i64;

/// Return type for `GetTime` and `ClockGetRes` callbacks; mirrors the
/// kernel's `timespec`.
#[derive(PartialEq, Eq, Structural, Clone, Copy, Debug)]
pub struct TimeSpec {
    pub seconds: Time,
    pub nanos: i64,
}

/// Return type for `GetTimeOfDay` callbacks; mirrors the kernel's `timeval`.
#[derive(PartialEq, Eq, Structural, Clone, Copy, Debug)]
pub struct TimeVal {
    pub seconds: Time,
    pub micros: i64,
}

/// The tagged set of vDSO time functions this crate can redirect.
#[derive(PartialEq, Eq, Structural, Clone, Copy, Debug)]
pub enum Kind {
    GetTime,
    Time,
    ClockGetRes,
    GetTimeOfDay,
}

/// The 64-bit architectures whose vDSO layout and jump stubs are known here.
#[derive(PartialEq, Eq, Structural, Clone, Copy, Debug)]
pub enum Arch {
    X86_64,
    Aarch64,
    Riscv64,
}

/// One vDSO symbol as a hook candidate: its name, its offset from the
/// image base, and its size padded to the `.text` alignment -- the byte
/// distance to the next symbol slot.
pub struct VDSOFun {
    pub name: Vec<u8>,
    pub addr: usize,
    pub size: usize,
}

/// What restoring a hook takes: where the captured bytes belong in the
/// image and the bytes themselves, taken just before the overwrite.
pub struct BackupEntry {
    pub addr: usize,
    pub data: Vec<u8>,
}

/// Why discovery or patching failed.
#[derive(PartialEq, Eq, Structural, Clone, Copy, Debug)]
pub enum PatchError {
    /// The auxiliary vector held no vDSO base or no page size.
    NoAuxv,
    /// The ELF header or a table inside the image could not be parsed.
    BadElf,
    /// No `.text` section, so alignment and load base cannot be resolved.
    NoTextSection,
    /// The OS rejected the page-protection change.
    ProtectFailed,
    /// The requested stub length is below the architecture's minimum.
    StubTooSmall,
}

} // verus!
