//! Target controller: wraps the kernel trace primitives behind a small
//! interface, together with a ghost model of the target's memory and
//! registers.
//!
//! The model: while the target is stopped, its memory is a total map from
//! addresses to bytes (`mem`) and its registers are a fixed record (`regs`).
//! Reading and writing words through the trace primitives is modelled
//! little-endian at byte granularity, which is how the x86-64 kernel
//! interface behaves. Resuming the target (`step`, `resume`, `wait_for_stop`,
//! `kill`) lets it run arbitrary code, so those calls leave the model
//! unconstrained apart from totality.

use nix::sys::signal::Signal;
use nix::sys::wait::WaitStatus;
use vstd::prelude::*;

verus! {

/// Why the traced process stopped, as reported by the kernel.
#[derive(Clone, Copy, Debug, PartialEq, Eq, Structural)]
pub enum StopReason {
    /// Stopped by a trap or stop signal: a breakpoint, a completed single
    /// step, an exec stop, or an explicit stop request.
    TrappedOrStopped,
    /// Stopped by a segmentation fault.
    Segfaulted,
    /// The process exited with the given code.
    Exited(i32),
    /// Any other state change; the payload is the raw signal number when one
    /// was reported, and 0 otherwise.
    Unhandled(i32),
}

#[verifier::external_type_specification]
pub struct ExUserRegs(nix::libc::user_regs_struct);

/// The byte `i` (0 = least significant) of a little-endian word.
pub open spec fn byte_of(w: u64, i: u64) -> u8 {
    if i == 0 {
        (w & 0xFF) as u8
    } else if i == 1 {
        ((w >> 8) & 0xFF) as u8
    } else if i == 2 {
        ((w >> 16) & 0xFF) as u8
    } else if i == 3 {
        ((w >> 24) & 0xFF) as u8
    } else if i == 4 {
        ((w >> 32) & 0xFF) as u8
    } else if i == 5 {
        ((w >> 40) & 0xFF) as u8
    } else if i == 6 {
        ((w >> 48) & 0xFF) as u8
    } else if i == 7 {
        ((w >> 56) & 0xFF) as u8
    } else {
        0
    }
}

/// The word formed by the eight bytes of memory at `a`, little-endian.
pub open spec fn word_of_bytes(m: Map<u64, u8>, a: u64) -> u64 {
    (m[a] as u64)
        | ((m[(a + 1) as u64] as u64) << 8)
        | ((m[(a + 2) as u64] as u64) << 16)
        | ((m[(a + 3) as u64] as u64) << 24)
        | ((m[(a + 4) as u64] as u64) << 32)
        | ((m[(a + 5) as u64] as u64) << 40)
        | ((m[(a + 6) as u64] as u64) << 48)
        | ((m[(a + 7) as u64] as u64) << 56)
}

/// Memory after the word `v` has been written at `a`, little-endian.
pub open spec fn set_word(m: Map<u64, u8>, a: u64, v: u64) -> Map<u64, u8> {
    Map::total(
        |k: u64|
            if a <= k <= a + 7 {
                byte_of(v, (k - a) as u64)
            } else {
                m[k]
            },
    )
}

/// The model keeps memory total: every address maps to some byte.
pub open spec fn is_total(m: Map<u64, u8>) -> bool {
    forall|k: u64| m.dom().contains(k)
}

/// What a failed word write at `a` may leave behind: the kernel copies
/// remote memory page by page, so each byte of the word independently holds
/// either its old value or the corresponding byte of `v`, and every byte
/// outside the word is untouched.
pub open spec fn partial_word_write(m0: Map<u64, u8>, m1: Map<u64, u8>, a: u64, v: u64) -> bool {
    &&& forall|k: u64| (k < a || k > a + 7) ==> m1[k] == m0[k]
    &&& forall|k: u64| a <= k <= a + 7 ==> (m1[k] == m0[k] || m1[k] == byte_of(v, (k - a) as u64))
}

/// The register record with the instruction pointer replaced by `v`.
pub open spec fn with_rip(r: nix::libc::user_regs_struct, v: u64) -> nix::libc::user_regs_struct {
    nix::libc::user_regs_struct { rip: v, ..r }
}

/// A traced OS process: the numeric process identifier together with the
/// ghost model of its memory and registers at the current stop.
///
/// The ghost fields are public so that contracts elsewhere can speak of
/// them, which also means verified code could in principle construct a
/// handle with a fabricated model; the model is only meaningful for handles
/// that come from [`TargetHandle::new`] or [`attach`] and are driven through
/// the wrappers below, and nothing in this crate constructs one otherwise.
pub struct TargetHandle {
    /// The numeric identifier of the traced process.
    pub pid: i32,
    /// Model of the target's memory, one byte per address.
    pub mem: Ghost<Map<u64, u8>>,
    /// Model of the target's general-purpose register file.
    pub regs: Ghost<nix::libc::user_regs_struct>,
}

impl TargetHandle {
    /// Adopt a process that the caller has already made traceable (a forked
    /// child that requested tracing before replacing its image). The model
    /// starts unconstrained except for totality, since nothing is known of
    /// the process's state yet.
    #[verifier::external_body]
    pub fn new(pid: i32) -> (r: TargetHandle)
        ensures
            is_total(r.mem@),
    {
        TargetHandle { pid, mem: Ghost(arbitrary()), regs: Ghost(arbitrary()) }
    }
}

/// Relies on nix::sys::ptrace::attach (PTRACE_ATTACH): attaches trace control
/// to the running process `pid`; fails with the kernel's error code if the
/// process does not exist or attaching is refused.
#[verifier::external_body]
pub fn attach(pid: i32) -> (r: Result<TargetHandle, i32>)
    ensures
        match r {
            Ok(h) => is_total(h.mem@),
            Err(_) => true,
        },
{
    match nix::sys::ptrace::attach(nix::unistd::Pid::from_raw(pid)) {
        Ok(()) => Ok(TargetHandle { pid, mem: Ghost(arbitrary()), regs: Ghost(arbitrary()) }),
        Err(e) => Err(e as i32),
    }
}

/// Relies on nix::sys::wait::waitpid: blocks until the kernel reports a state
/// change for the target, and classifies it. The target ran meanwhile, so the
/// memory and register models are unconstrained afterwards.
#[verifier::external_body]
pub fn wait_for_stop(h: &mut TargetHandle) -> (r: Result<StopReason, i32>)
    ensures
        is_total(final(h).mem@),
{
    match nix::sys::wait::waitpid(nix::unistd::Pid::from_raw(h.pid), None) {
        Ok(WaitStatus::Stopped(_, Signal::SIGTRAP)) => Ok(StopReason::TrappedOrStopped),
        Ok(WaitStatus::Stopped(_, Signal::SIGSTOP)) => Ok(StopReason::TrappedOrStopped),
        Ok(WaitStatus::Stopped(_, Signal::SIGSEGV)) => Ok(StopReason::Segfaulted),
        Ok(WaitStatus::Stopped(_, sig)) => Ok(StopReason::Unhandled(sig as i32)),
        Ok(WaitStatus::Exited(_, code)) => Ok(StopReason::Exited(code)),
        Ok(WaitStatus::Signaled(_, sig, _)) => Ok(StopReason::Unhandled(sig as i32)),
        Ok(_) => Ok(StopReason::Unhandled(0)),
        Err(e) => Err(e as i32),
    }
}

/// Relies on nix::sys::ptrace::step (PTRACE_SINGLESTEP): requests execution
/// of a single instruction; the effect is observed at the next wait.
#[verifier::external_body]
pub fn step(h: &mut TargetHandle) -> (r: Result<(), i32>)
    ensures
        is_total(final(h).mem@),
{
    match nix::sys::ptrace::step(nix::unistd::Pid::from_raw(h.pid), None) {
        Ok(()) => Ok(()),
        Err(e) => Err(e as i32),
    }
}

/// Relies on nix::sys::ptrace::cont (PTRACE_CONT): requests free-running
/// execution; the effect is observed at the next wait.
#[verifier::external_body]
pub fn resume(h: &mut TargetHandle) -> (r: Result<(), i32>)
    ensures
        is_total(final(h).mem@),
{
    match nix::sys::ptrace::cont(nix::unistd::Pid::from_raw(h.pid), None) {
        Ok(()) => Ok(()),
        Err(e) => Err(e as i32),
    }
}

/// Relies on nix::sys::ptrace::kill (PTRACE_KILL): requests termination of
/// the target; idempotent if the target has already exited.
#[verifier::external_body]
pub fn kill(h: &mut TargetHandle) -> (r: Result<(), i32>)
    ensures
        is_total(final(h).mem@),
{
    match nix::sys::ptrace::kill(nix::unistd::Pid::from_raw(h.pid)) {
        Ok(()) => Ok(()),
        Err(e) => Err(e as i32),
    }
}

/// Relies on nix::sys::ptrace::getregs (PTRACE_GETREGS): returns the target's
/// register record at the current stop, which the model tracks as `regs`.
#[verifier::external_body]
pub fn read_registers(h: &TargetHandle) -> (r: Result<nix::libc::user_regs_struct, i32>)
    ensures
        match r {
            Ok(regs) => regs == h.regs@,
            Err(_) => true,
        },
{
    match nix::sys::ptrace::getregs(nix::unistd::Pid::from_raw(h.pid)) {
        Ok(regs) => Ok(regs),
        Err(e) => Err(e as i32),
    }
}

/// Relies on nix::sys::ptrace::setregs (PTRACE_SETREGS): writes the whole
/// register record back. The caller may change only the instruction
/// pointer: every other field must hold the value the model already has, so
/// the kernel's validation and masking of segment and flag fields see the
/// very values it reported and leave them as they are; the write is then
/// applied exactly, or refused outright (for a vanished or running target)
/// before anything is written.
#[verifier::external_body]
pub fn write_registers(h: &mut TargetHandle, regs: nix::libc::user_regs_struct) -> (r: Result<
    (),
    i32,
>)
    requires
        regs == with_rip(old(h).regs@, regs.rip),
    ensures
        match r {
            Ok(()) => final(h).regs@ == regs && final(h).mem@ == old(h).mem@,
            Err(_) => final(h).regs@ == old(h).regs@ && final(h).mem@ == old(h).mem@,
        },
{
    match nix::sys::ptrace::setregs(nix::unistd::Pid::from_raw(h.pid), regs) {
        Ok(()) => Ok(()),
        Err(e) => Err(e as i32),
    }
}

/// Relies on nix::sys::ptrace::read (PTRACE_PEEKDATA): on success the result
/// is the word formed by the eight bytes of target memory at `addr`,
/// little-endian (x86-64).
#[verifier::external_body]
pub fn read_word(h: &TargetHandle, addr: u64) -> (r: Result<u64, i32>)
    requires
        addr + 7 <= u64::MAX,
    ensures
        match r {
            Ok(w) => w == word_of_bytes(h.mem@, addr),
            Err(_) => true,
        },
{
    match nix::sys::ptrace::read(
        nix::unistd::Pid::from_raw(h.pid),
        addr as usize as nix::sys::ptrace::AddressType,
    ) {
        Ok(v) => Ok(v as u64),
        Err(e) => Err(e as i32),
    }
}

/// Relies on nix::sys::ptrace::write (PTRACE_POKEDATA): on success the eight
/// bytes of target memory at `addr` now spell `val`, little-endian (x86-64).
/// The kernel writes remote memory page by page, so a failing write that
/// straddles the end of a mapping may have written part of the word: on
/// failure each byte of the word holds its old or its new value, and
/// everything outside the word is untouched. An invalid but mapped address
/// silently corrupts target state rather than failing: that is inherent to
/// the primitive.
#[verifier::external_body]
pub fn write_word(h: &mut TargetHandle, addr: u64, val: u64) -> (r: Result<(), i32>)
    requires
        addr + 7 <= u64::MAX,
    ensures
        match r {
            Ok(()) => final(h).mem@ == set_word(old(h).mem@, addr, val) && final(h).regs@ == old(
                h,
            ).regs@,
            Err(_) => partial_word_write(old(h).mem@, final(h).mem@, addr, val) && is_total(
                final(h).mem@,
            ) && final(h).regs@ == old(h).regs@,
        },
{
    match nix::sys::ptrace::write(
        nix::unistd::Pid::from_raw(h.pid),
        addr as usize as nix::sys::ptrace::AddressType,
        val as nix::libc::c_long,
    ) {
        Ok(()) => Ok(()),
        Err(e) => Err(e as i32),
    }
}

} // verus!
