//! Breakpoint table: owns the set of active breakpoints keyed by address,
//! installs and restores the trap byte, and rolls the instruction pointer
//! back after a trap.
//!
//! A breakpoint is installed by replacing the low byte of the instruction
//! word at its address with the trap opcode while preserving the remaining
//! bytes; clearing writes the recorded original word back verbatim.

use std::collections::HashMap;
use vstd::prelude::*;

use crate::target::{
    byte_of, is_total, partial_word_write, read_registers, read_word, set_word, with_rip,
    word_of_bytes, write_registers, write_word, TargetHandle,
};

verus! {

broadcast use vstd::std_specs::hash::group_hash_axioms;

/// The architecture's single-byte trap opcode, substituted for the low byte
/// of the instruction word at a breakpoint address (x86-64).
pub const TRAP_OPCODE: u64 = 0xCC;

/// The word that arms a breakpoint: the low byte of `w` replaced by the trap
/// opcode, the remaining bytes preserved.
pub open spec fn patch_spec(w: u64) -> u64 {
    (w & 0xFFFF_FFFF_FFFF_FF00) | 0xCC
}

/// Compute the patched instruction word for a breakpoint.
pub fn patch_word(w: u64) -> (r: u64)
    ensures
        r == patch_spec(w),
{
    (w & 0xFFFF_FFFF_FFFF_FF00) | 0xCC
}

/// The patched word holds the trap opcode in its low byte and the original
/// word's bytes everywhere else.
pub proof fn lemma_patch_bytes(w: u64)
    ensures
        byte_of(patch_spec(w), 0) == 0xCCu8,
        forall|i: u64| 1 <= i < 8 ==> byte_of(patch_spec(w), i) == byte_of(w, i),
{
    assert(((w & 0xFFFF_FFFF_FFFF_FF00) | 0xCC) & 0xFF == 0xCC) by (bit_vector);
    assert((((w & 0xFFFF_FFFF_FFFF_FF00) | 0xCC) >> 8) & 0xFF == (w >> 8) & 0xFF) by (bit_vector);
    assert((((w & 0xFFFF_FFFF_FFFF_FF00) | 0xCC) >> 16) & 0xFF == (w >> 16) & 0xFF)
        by (bit_vector);
    assert((((w & 0xFFFF_FFFF_FFFF_FF00) | 0xCC) >> 24) & 0xFF == (w >> 24) & 0xFF)
        by (bit_vector);
    assert((((w & 0xFFFF_FFFF_FFFF_FF00) | 0xCC) >> 32) & 0xFF == (w >> 32) & 0xFF)
        by (bit_vector);
    assert((((w & 0xFFFF_FFFF_FFFF_FF00) | 0xCC) >> 40) & 0xFF == (w >> 40) & 0xFF)
        by (bit_vector);
    assert((((w & 0xFFFF_FFFF_FFFF_FF00) | 0xCC) >> 48) & 0xFF == (w >> 48) & 0xFF)
        by (bit_vector);
    assert((((w & 0xFFFF_FFFF_FFFF_FF00) | 0xCC) >> 56) & 0xFF == (w >> 56) & 0xFF)
        by (bit_vector);
}

/// Write/read round-trip: after the word `v` is written at `a`, the word read
/// back at `a` is exactly `v`.
pub proof fn lemma_write_read_round_trip(m: Map<u64, u8>, a: u64, v: u64)
    requires
        a + 7 <= u64::MAX,
    ensures
        word_of_bytes(set_word(m, a, v), a) == v,
{
    let m2 = set_word(m, a, v);
    assert(m2[a] == byte_of(v, 0));
    assert(m2[(a + 1) as u64] == byte_of(v, 1));
    assert(m2[(a + 2) as u64] == byte_of(v, 2));
    assert(m2[(a + 3) as u64] == byte_of(v, 3));
    assert(m2[(a + 4) as u64] == byte_of(v, 4));
    assert(m2[(a + 5) as u64] == byte_of(v, 5));
    assert(m2[(a + 6) as u64] == byte_of(v, 6));
    assert(m2[(a + 7) as u64] == byte_of(v, 7));
    assert(((((v & 0xFF) as u8) as u64) | (((((v >> 8) & 0xFF) as u8) as u64) << 8) | (((((v >> 16)
        & 0xFF) as u8) as u64) << 16) | (((((v >> 24) & 0xFF) as u8) as u64) << 24) | (((((v >> 32)
        & 0xFF) as u8) as u64) << 32) | (((((v >> 40) & 0xFF) as u8) as u64) << 40) | (((((v >> 48)
        & 0xFF) as u8) as u64) << 48) | (((((v >> 56) & 0xFF) as u8) as u64) << 56)) == v)
        by (bit_vector);
}

/// Writing back the word already in memory at `a` leaves memory unchanged.
pub proof fn lemma_set_word_identity(m: Map<u64, u8>, a: u64)
    requires
        is_total(m),
        a + 7 <= u64::MAX,
    ensures
        set_word(m, a, word_of_bytes(m, a)) =~= m,
{
    let w = word_of_bytes(m, a);
    let m2 = set_word(m, a, w);
    let b0: u64 = m[a] as u64;
    let b1: u64 = m[(a + 1) as u64] as u64;
    let b2: u64 = m[(a + 2) as u64] as u64;
    let b3: u64 = m[(a + 3) as u64] as u64;
    let b4: u64 = m[(a + 4) as u64] as u64;
    let b5: u64 = m[(a + 5) as u64] as u64;
    let b6: u64 = m[(a + 6) as u64] as u64;
    let b7: u64 = m[(a + 7) as u64] as u64;
    assert(w == (b0 | (b1 << 8) | (b2 << 16) | (b3 << 24) | (b4 << 32) | (b5 << 40) | (b6 << 48)
        | (b7 << 56)));
    assert((b0 < 256 && b1 < 256 && b2 < 256 && b3 < 256 && b4 < 256 && b5 < 256 && b6 < 256 && b7
        < 256) ==> ({
        let w2 = b0 | (b1 << 8) | (b2 << 16) | (b3 << 24) | (b4 << 32) | (b5 << 40) | (b6 << 48)
            | (b7 << 56);
        w2 & 0xFF == b0 && (w2 >> 8) & 0xFF == b1 && (w2 >> 16) & 0xFF == b2 && (w2 >> 24) & 0xFF
            == b3 && (w2 >> 32) & 0xFF == b4 && (w2 >> 40) & 0xFF == b5 && (w2 >> 48) & 0xFF == b6
            && (w2 >> 56) & 0xFF == b7
    })) by (bit_vector);
    assert forall|k: u64| m2.dom().contains(k) implies #[trigger] m2[k] == m[k] by {
        if a <= k <= a + 7 {
            let i = (k - a) as u64;
            assert(m2[k] == byte_of(w, i));
            if i == 0 {
                assert(byte_of(w, 0) == (b0 as u8));
            } else if i == 1 {
                assert(byte_of(w, 1) == (b1 as u8));
            } else if i == 2 {
                assert(byte_of(w, 2) == (b2 as u8));
            } else if i == 3 {
                assert(byte_of(w, 3) == (b3 as u8));
            } else if i == 4 {
                assert(byte_of(w, 4) == (b4 as u8));
            } else if i == 5 {
                assert(byte_of(w, 5) == (b5 as u8));
            } else if i == 6 {
                assert(byte_of(w, 6) == (b6 as u8));
            } else {
                assert(byte_of(w, 7) == (b7 as u8));
            }
        }
    }
    assert(m2 =~= m);
}

/// Writing a word at `a` and then another word at `a` is the same as writing
/// only the second word.
pub proof fn lemma_set_word_overwrite(m: Map<u64, u8>, a: u64, x: u64, v: u64)
    ensures
        set_word(set_word(m, a, x), a, v) =~= set_word(m, a, v),
{
    let l = set_word(set_word(m, a, x), a, v);
    let r = set_word(m, a, v);
    assert forall|k: u64| l.dom().contains(k) implies #[trigger] l[k] == r[k] by {
        if !(a <= k <= a + 7) {
            assert(set_word(m, a, x)[k] == m[k]);
        }
    }
    assert(l =~= r);
}

/// Breakpoint round-trip: planting a breakpoint at `a` (patching the word
/// found there) and then clearing it (writing the recorded word back) leaves
/// the target's memory exactly as it was.
pub proof fn lemma_breakpoint_round_trip(m: Map<u64, u8>, a: u64)
    requires
        is_total(m),
        a + 7 <= u64::MAX,
    ensures
        ({
            let w = word_of_bytes(m, a);
            set_word(set_word(m, a, patch_spec(w)), a, w) =~= m
        }),
{
    let w = word_of_bytes(m, a);
    lemma_set_word_overwrite(m, a, patch_spec(w), w);
    lemma_set_word_identity(m, a);
}

/// A kernel I/O failure while patching or restoring code bytes; fatal to the
/// session, since the code page may be left inconsistent. Carries the raw
/// error code.
#[derive(Clone, Copy, Debug, PartialEq, Eq, Structural)]
pub struct BreakpointIoError(pub i32);

/// One planted breakpoint: the patched address and the instruction word that
/// occupied it before patching.
#[derive(Clone, Copy, Debug, PartialEq, Eq, Structural)]
pub struct BrkptRecord {
    /// The machine address whose low byte holds the trap while armed.
    pub pc_addr: u64,
    /// The instruction word found at `pc_addr` before patching.
    pub original_insn: u64,
}

impl BrkptRecord {
    /// Record a breakpoint at `pc_addr` whose original instruction word is
    /// `original_insn`.
    pub fn new(pc_addr: u64, original_insn: u64) -> (r: BrkptRecord)
        ensures
            r.pc_addr == pc_addr,
            r.original_insn == original_insn,
    {
        BrkptRecord { pc_addr, original_insn }
    }

    /// Arm the breakpoint: write the patched word (trap opcode in the low
    /// byte, original bytes elsewhere) at its address.
    pub fn activate(&self, h: &mut TargetHandle) -> (r: Result<(), BreakpointIoError>)
        requires
            self.pc_addr + 7 <= u64::MAX,
        ensures
            match r {
                Ok(()) => final(h).mem@ == set_word(
                    old(h).mem@,
                    self.pc_addr,
                    patch_spec(self.original_insn),
                ) && final(h).regs@ == old(h).regs@,
                Err(_) => partial_word_write(
                    old(h).mem@,
                    final(h).mem@,
                    self.pc_addr,
                    patch_spec(self.original_insn),
                ) && final(h).regs@ == old(h).regs@,
            },
    {
        let patched = patch_word(self.original_insn);
        match write_word(h, self.pc_addr, patched) {
            Ok(()) => Ok(()),
            Err(e) => Err(BreakpointIoError(e)),
        }
    }

    /// Undo the trap after a hit: restore the original instruction word and
    /// rewind the instruction pointer to the breakpoint address, so the
    /// original instruction executes on the next resume.
    pub fn recover_from_trap(&self, h: &mut TargetHandle) -> (r: Result<(), BreakpointIoError>)
        requires
            self.pc_addr + 7 <= u64::MAX,
        ensures
            match r {
                Ok(()) => final(h).mem@ == set_word(old(h).mem@, self.pc_addr, self.original_insn)
                    && final(h).regs@ == with_rip(old(h).regs@, self.pc_addr) && word_of_bytes(
                    final(h).mem@,
                    self.pc_addr,
                ) == self.original_insn && final(h).regs@.rip == self.pc_addr,
                Err(_) => final(h).regs@ == old(h).regs@ && partial_word_write(
                    old(h).mem@,
                    final(h).mem@,
                    self.pc_addr,
                    self.original_insn,
                ),
            },
    {
        let ghost m0 = h.mem@;
        match write_word(h, self.pc_addr, self.original_insn) {
            Ok(()) => {}
            Err(e) => {
                return Err(BreakpointIoError(e));
            }
        }
        let mut regs = match read_registers(h) {
            Ok(regs) => regs,
            Err(e) => {
                return Err(BreakpointIoError(e));
            }
        };
        regs.rip = self.pc_addr;
        match write_registers(h, regs) {
            Ok(()) => {
                proof {
                    lemma_write_read_round_trip(m0, self.pc_addr, self.original_insn);
                }
                Ok(())
            }
            Err(e) => Err(BreakpointIoError(e)),
        }
    }
}

/// The outcome of asking for a breakpoint at an address.
#[derive(Clone, Copy, Debug, PartialEq, Eq, Structural)]
pub enum SetOutcome {
    /// A new record was created and the trap installed.
    Installed(BrkptRecord),
    /// A record already existed at the address; nothing was changed.
    AlreadySet,
}

/// The set of active breakpoints, keyed by address. Invariant: exactly one
/// record per address, each record keyed by its own address, and every
/// address leaves room for a full word below the address-space limit.
pub struct BreakpointTable {
    records: HashMap<u64, BrkptRecord>,
}

impl BreakpointTable {
    /// The table as a map from address to the record planted there.
    pub closed spec fn view(&self) -> Map<u64, BrkptRecord> {
        self.records@
    }

    /// Every record is keyed by its own address and lies below the
    /// address-space limit by at least a word.
    pub open spec fn wf(&self) -> bool {
        forall|k: u64| #[trigger] self@.contains_key(k) ==> (self@[k].pc_addr == k && k + 7
            <= u64::MAX)
    }

    /// An empty table.
    pub fn new() -> (r: BreakpointTable)
        ensures
            r@ == Map::<u64, BrkptRecord>::empty(),
            r.wf(),
    {
        BreakpointTable { records: HashMap::new() }
    }

    /// The record planted at `addr`, if any.
    pub fn lookup(&self, addr: u64) -> (r: Option<BrkptRecord>)
        ensures
            match r {
                Some(rec) => self@.contains_key(addr) && rec == self@[addr],
                None => !self@.contains_key(addr),
            },
    {
        match self.records.get(&addr) {
            Some(rec) => Some(*rec),
            None => None,
        }
    }

    /// Plant a breakpoint at `addr`: read the word there, record it, and
    /// write the patched word back. Idempotent: if a record already exists at
    /// `addr`, nothing is read or written and `AlreadySet` is returned.
    pub fn set(&mut self, h: &mut TargetHandle, addr: u64) -> (r: Result<
        SetOutcome,
        BreakpointIoError,
    >)
        requires
            old(self).wf(),
            addr + 7 <= u64::MAX,
        ensures
            final(self).wf(),
            old(self)@.contains_key(addr) ==> r == Ok::<SetOutcome, BreakpointIoError>(
                SetOutcome::AlreadySet,
            ),
            match r {
                Ok(SetOutcome::AlreadySet) => old(self)@.contains_key(addr) && final(self)@ == old(self)@ && final(h).mem@ == old(h).mem@ && final(h).regs@ == old(h).regs@,
                Ok(SetOutcome::Installed(rec)) => !old(self)@.contains_key(addr) && rec.pc_addr
                    == addr && rec.original_insn == word_of_bytes(old(h).mem@, addr) && final(self)@ == old(self)@.insert(addr, rec) && final(h).mem@ == set_word(
                    old(h).mem@,
                    addr,
                    patch_spec(rec.original_insn),
                ) && final(h).regs@ == old(h).regs@,
                Err(_) => final(self)@ == old(self)@ && final(h).regs@ == old(h).regs@
                    && partial_word_write(
                    old(h).mem@,
                    final(h).mem@,
                    addr,
                    patch_spec(word_of_bytes(old(h).mem@, addr)),
                ),
            },
    {
        let ghost t0 = self@;
        if self.records.contains_key(&addr) {
            return Ok(SetOutcome::AlreadySet);
        }
        let original = match read_word(h, addr) {
            Ok(w) => w,
            Err(e) => {
                return Err(BreakpointIoError(e));
            }
        };
        let rec = BrkptRecord::new(addr, original);
        match rec.activate(h) {
            Ok(()) => {}
            Err(e) => {
                return Err(e);
            }
        }
        self.records.insert(addr, rec);
        proof {
            assert forall|k: u64| #[trigger] self@.contains_key(k) implies (self@[k].pc_addr == k
                && k + 7 <= u64::MAX) by {
                if k != addr {
                    assert(t0.contains_key(k));
                }
            }
        }
        Ok(SetOutcome::Installed(rec))
    }

    /// Clear the breakpoint at `addr`: write the recorded original word back
    /// verbatim and remove the record. A no-op if no record exists there.
    pub fn clear(&mut self, h: &mut TargetHandle, addr: u64) -> (r: Result<(), BreakpointIoError>)
        requires
            old(self).wf(),
        ensures
            final(self).wf(),
            !old(self)@.contains_key(addr) ==> r == Ok::<(), BreakpointIoError>(()),
            match r {
                Ok(()) => if old(self)@.contains_key(addr) {
                    final(self)@ == old(self)@.remove(addr) && final(h).mem@ == set_word(
                        old(h).mem@,
                        addr,
                        old(self)@[addr].original_insn,
                    ) && final(h).regs@ == old(h).regs@
                } else {
                    final(self)@ == old(self)@ && final(h).mem@ == old(h).mem@ && final(h).regs@
                        == old(h).regs@
                },
                Err(_) => old(self)@.contains_key(addr) && final(self)@ == old(self)@ && final(h).regs@ == old(h).regs@ && partial_word_write(
                    old(h).mem@,
                    final(h).mem@,
                    addr,
                    old(self)@[addr].original_insn,
                ),
            },
    {
        let rec = match self.lookup(addr) {
            Some(rec) => rec,
            None => {
                return Ok(());
            }
        };
        match write_word(h, rec.pc_addr, rec.original_insn) {
            Ok(()) => {}
            Err(e) => {
                return Err(BreakpointIoError(e));
            }
        }
        self.records.remove(&addr);
        Ok(())
    }

    /// Breakpoint correction at a stop. The trap leaves the instruction
    /// pointer one byte past the patched location, so the address one below
    /// the given pointer is looked up; if a record is found there, the
    /// original word is restored, the pointer is rewound to the breakpoint
    /// address, and the record is kept so the breakpoint stays armed.
    /// Returns the corrected breakpoint address, or `None` if the stop has no
    /// associated breakpoint.
    pub fn on_stop(&self, h: &mut TargetHandle, rip: u64) -> (r: Result<
        Option<u64>,
        BreakpointIoError,
    >)
        requires
            self.wf(),
        ensures
            match r {
                Ok(None) => (rip == 0 || !self@.contains_key((rip - 1) as u64)) && final(h).mem@
                    == old(h).mem@ && final(h).regs@ == old(h).regs@,
                Ok(Some(a)) => rip >= 1 && a == rip - 1 && self@.contains_key(a) && final(h).mem@
                    == set_word(old(h).mem@, a, self@[a].original_insn) && word_of_bytes(
                    final(h).mem@,
                    a,
                ) == self@[a].original_insn && final(h).regs@ == with_rip(old(h).regs@, a) && final(h).regs@.rip == a,
                Err(_) => rip >= 1 && self@.contains_key((rip - 1) as u64) && final(h).regs@ == old(h).regs@ && partial_word_write(
                    old(h).mem@,
                    final(h).mem@,
                    (rip - 1) as u64,
                    self@[(rip - 1) as u64].original_insn,
                ),
            },
    {
        if rip == 0 {
            return Ok(None);
        }
        let addr = rip - 1;
        let rec = match self.lookup(addr) {
            Some(rec) => rec,
            None => {
                return Ok(None);
            }
        };
        match rec.recover_from_trap(h) {
            Ok(()) => Ok(Some(addr)),
            Err(e) => Err(e),
        }
    }
}

} // verus!
