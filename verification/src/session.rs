//! Debug session: composes the target controller, the breakpoint table and
//! the debug-info resolver, and drives the control loop's state machine.
//!
//! The session alternates between waiting for the target to stop and
//! executing user commands. A stop with a trap is corrected against the
//! breakpoint table before the user is consulted; resuming after a corrected
//! hit steps over the restored instruction and re-installs the trap first,
//! so breakpoints stay armed across hits. Everything that blocks or touches
//! the kernel goes through the target controller; the surrounding
//! read-a-line loop lives outside the library.

use vstd::prelude::*;

use crate::breakpoint::{patch_spec, BreakpointTable, BrkptRecord, SetOutcome};
use crate::command::{help_lines, is_help_listing, Breakpoint, OpSpec, Operation};
use crate::symbol::{spec_resolve, src_line_to_addr, DebugInfoIndex};
use crate::target::{
    kill, partial_word_write, read_registers, read_word, resume, set_word, step, wait_for_stop,
    word_of_bytes, StopReason, TargetHandle,
};

verus! {

/// The control-loop state of a debug session.
#[derive(Clone, Copy, Debug, PartialEq, Eq, Structural)]
pub enum SessionState {
    /// Blocked (or about to block) until the kernel reports a stop.
    AwaitingProcessStop,
    /// The target is stopped; commands are read and executed.
    AwaitingUserCommand,
    /// A resume request was issued; the loop goes back to waiting.
    Running,
    /// Terminal: the target was killed or is gone.
    Killed,
}

/// A failure while executing a session operation.
#[derive(Clone, Copy, Debug, PartialEq, Eq, Structural)]
pub enum SessionError {
    /// A breakpoint location was given but no debug information is loaded.
    NoSymbols,
    /// The location did not resolve to any line-table row.
    ResolveFailed,
    /// A word access would run past the end of the address space.
    AddressOutOfRange,
    /// The kernel refused a trace request; carries the error code. The
    /// session continues.
    Kernel(i32),
    /// A kernel failure while patching or restoring code bytes; fatal, since
    /// the code page may be left inconsistent. Carries the error code.
    BreakpointIo(i32),
}

impl SessionError {
    /// The user-facing text for this failure.
    pub open spec fn message_spec(self) -> Seq<char> {
        match self {
            SessionError::NoSymbols => "Cannot resolve source lines without debug symbols!"@,
            SessionError::ResolveFailed => "Failed to resolve address!"@,
            SessionError::AddressOutOfRange => (
            "Address is too close to the end of the address space!"@),
            SessionError::Kernel(_) => "Kernel trace request failed!"@,
            SessionError::BreakpointIo(_) => (
            "FATAL: failed to patch or restore breakpoint bytes!"@),
        }
    }

    /// The user-facing text for this failure.
    pub fn message(&self) -> (r: &'static str)
        ensures
            r@ == self.message_spec(),
    {
        match self {
            SessionError::NoSymbols => "Cannot resolve source lines without debug symbols!",
            SessionError::ResolveFailed => "Failed to resolve address!",
            SessionError::AddressOutOfRange => "Address is too close to the end of the address space!",
            SessionError::Kernel(_) => "Kernel trace request failed!",
            SessionError::BreakpointIo(_) => "FATAL: failed to patch or restore breakpoint bytes!",
        }
    }
}

/// What executing one command did, and what there is to report.
pub enum TargetStat {
    /// A query or mutation finished; the session keeps awaiting commands.
    AwaitingCommand,
    /// The target was resumed; the session goes back to waiting.
    Running,
    /// The target was killed on request; terminal.
    Killed,
    /// A breakpoint was planted; carries the new record.
    BreakpointAdded(BrkptRecord),
    /// A breakpoint was already planted at the address; nothing was changed.
    BreakpointAlreadySet(u64),
    /// The registers were read for display.
    RegistersRead(nix::libc::user_regs_struct),
    /// A word of target memory was read for display.
    WordRead { addr: u64, val: u64 },
    /// The help listing, for display.
    HelpShown(Vec<&'static str>),
    /// While stepping over a corrected breakpoint the target ended; carries
    /// the reason. Terminal.
    TargetGone(StopReason),
}

/// What a kernel stop notification amounted to.
pub enum StopOutcome {
    /// The target is stopped and usable; `corrected` is the breakpoint
    /// address whose hit was rewound, if the stop was such a hit.
    Stopped { corrected: Option<u64> },
    /// The session is over; carries the reason.
    Ended(StopReason),
}

/// A debug session: the program to spawn (if any), the breakpoint table, the
/// optional debug-info index, and the control-loop state.
pub struct TraceeDbg {
    /// The path of the program to spawn, when the session launches rather
    /// than attaches.
    pub program: Option<Vec<u8>>,
    /// The active breakpoints.
    pub breakpoints: BreakpointTable,
    /// The decoded debug information, when any was loaded.
    pub symbols: Option<DebugInfoIndex>,
    /// The control-loop state.
    pub state: SessionState,
    /// A breakpoint address whose trap byte is currently lifted after a hit
    /// and must be re-installed before the next free run.
    pub pending_rearm: Option<u64>,
}

impl TraceeDbg {
    /// The session's structural invariant: the table is well formed and any
    /// pending re-arm refers to a planted breakpoint.
    pub open spec fn wf(&self) -> bool {
        &&& self.breakpoints.wf()
        &&& match self.pending_rearm {
            Some(a) => self.breakpoints@.contains_key(a),
            None => true,
        }
    }

    /// Start building a session.
    pub fn builder() -> (r: TraceeBuilder)
        ensures
            r.program is None,
            r.symbols is None,
    {
        TraceeBuilder { program: None, symbols: None }
    }

    /// Resolve a `file:line` location against the loaded debug information.
    /// Fails distinctly when no debug information was loaded versus when the
    /// location does not resolve.
    pub fn resolve_breakpoint(&self, file: &[u8], line: u64) -> (r: Result<
        Breakpoint,
        SessionError,
    >)
        ensures
            match r {
                Ok(bp) => self.symbols matches Some(idx) && spec_resolve(idx@, file@, line)
                    == Some(bp.0),
                Err(SessionError::NoSymbols) => self.symbols is None,
                Err(SessionError::ResolveFailed) => self.symbols matches Some(idx)
                    && spec_resolve(idx@, file@, line) is None,
                Err(_) => false,
            },
    {
        match &self.symbols {
            None => Err(SessionError::NoSymbols),
            Some(idx) => match src_line_to_addr(idx, file, line) {
                Some(a) => Ok(Breakpoint(a)),
                None => Err(SessionError::ResolveFailed),
            },
        }
    }

    /// Take a kernel stop notification: on a trap, apply breakpoint
    /// correction (restore the original word, rewind the instruction pointer
    /// to the breakpoint address, keep the record armed in the table) and
    /// await a command; on any other reason the session ends with it.
    pub fn handle_stop(&mut self, h: &mut TargetHandle, reason: StopReason) -> (r: Result<
        StopOutcome,
        SessionError,
    >)
        requires
            old(self).wf(),
        ensures
            final(self).wf(),
            final(self).breakpoints@ == old(self).breakpoints@,
            final(self).symbols == old(self).symbols,
            match r {
                Ok(StopOutcome::Stopped { corrected }) => reason == StopReason::TrappedOrStopped
                    && final(self).state == SessionState::AwaitingUserCommand && match corrected {
                    Some(a) => old(h).regs@.rip >= 1 && a == old(h).regs@.rip - 1 && old(self).breakpoints@.contains_key(a) && final(h).regs@.rip == a && word_of_bytes(
                        final(h).mem@,
                        a,
                    ) == old(self).breakpoints@[a].original_insn && final(self).pending_rearm
                        == Some(a),
                    None => (old(h).regs@.rip == 0 || !old(self).breakpoints@.contains_key(
                        (old(h).regs@.rip - 1) as u64,
                    )) && final(h).mem@ == old(h).mem@ && final(h).regs@ == old(h).regs@ && final(self).pending_rearm == old(self).pending_rearm,
                },
                Ok(StopOutcome::Ended(rr)) => rr == reason && reason
                    != StopReason::TrappedOrStopped && final(self).state == SessionState::Killed
                    && final(self).pending_rearm == old(self).pending_rearm && final(h).mem@
                    == old(h).mem@ && final(h).regs@ == old(h).regs@,
                Err(e) => reason == StopReason::TrappedOrStopped && final(self).state == old(self).state && final(self).pending_rearm == old(self).pending_rearm && match e {
                    // the register read failed before anything was touched
                    SessionError::Kernel(_) => final(h).mem@ == old(h).mem@ && final(h).regs@
                        == old(h).regs@,
                    // the restore failed partway: each byte of the word at
                    // the breakpoint holds its old or its restored value
                    SessionError::BreakpointIo(_) => old(h).regs@.rip >= 1 && old(self).breakpoints@.contains_key((old(h).regs@.rip - 1) as u64) && final(h).regs@
                        == old(h).regs@ && partial_word_write(
                        old(h).mem@,
                        final(h).mem@,
                        (old(h).regs@.rip - 1) as u64,
                        old(self).breakpoints@[(old(h).regs@.rip - 1) as u64].original_insn,
                    ),
                    _ => false,
                },
            },
    {
        match reason {
            StopReason::TrappedOrStopped => {
                let regs = match read_registers(h) {
                    Ok(regs) => regs,
                    Err(e) => {
                        return Err(SessionError::Kernel(e));
                    },
                };
                match self.breakpoints.on_stop(h, regs.rip) {
                    Ok(Some(a)) => {
                        self.pending_rearm = Some(a);
                        self.state = SessionState::AwaitingUserCommand;
                        Ok(StopOutcome::Stopped { corrected: Some(a) })
                    },
                    Ok(None) => {
                        self.state = SessionState::AwaitingUserCommand;
                        Ok(StopOutcome::Stopped { corrected: None })
                    },
                    Err(e) => Err(SessionError::BreakpointIo(e.0)),
                }
            },
            _ => {
                self.state = SessionState::Killed;
                Ok(StopOutcome::Ended(reason))
            },
        }
    }

    /// Resume the target. If a corrected breakpoint is pending, first single
    /// step over the restored instruction, wait for that step to finish, and
    /// re-install the trap, so the breakpoint stays armed; only then run
    /// freely if the user asked to continue. Without a pending correction,
    /// issue the requested resumption directly.
    fn resume_target(&mut self, h: &mut TargetHandle, cont: bool) -> (r: Result<
        TargetStat,
        SessionError,
    >)
        requires
            old(self).wf(),
        ensures
            final(self).wf(),
            final(self).breakpoints@ == old(self).breakpoints@,
            final(self).symbols == old(self).symbols,
            match r {
                Ok(TargetStat::Running) => final(self).state == SessionState::Running && final(self).pending_rearm is None,
                Ok(TargetStat::AwaitingCommand) => !cont && final(self).state
                    == SessionState::AwaitingUserCommand && final(self).pending_rearm is None
                    && (old(self).pending_rearm matches Some(a) && word_of_bytes(final(h).mem@, a)
                    == patch_spec(old(self).breakpoints@[a].original_insn)),
                Ok(TargetStat::TargetGone(_)) => old(self).pending_rearm is Some && final(self).state == SessionState::Killed && final(self).pending_rearm is None,
                Ok(_) => false,
                Err(e) => (e matches SessionError::Kernel(_) || e matches SessionError::BreakpointIo(
                    _,
                )) && final(self).state == old(self).state && (final(self).pending_rearm == old(self).pending_rearm || (old(self).pending_rearm is Some && final(self).pending_rearm
                    is None)),
            },
    {
        let a = match self.pending_rearm {
            None => {
                let res = if cont {
                    resume(h)
                } else {
                    step(h)
                };
                match res {
                    Ok(()) => {
                        self.state = SessionState::Running;
                        return Ok(TargetStat::Running);
                    },
                    Err(e) => {
                        return Err(SessionError::Kernel(e));
                    },
                }
            },
            Some(a) => a,
        };
        // step over the restored original instruction
        match step(h) {
            Ok(()) => {},
            Err(e) => {
                return Err(SessionError::Kernel(e));
            },
        }
        let reason = match wait_for_stop(h) {
            Ok(reason) => reason,
            Err(e) => {
                return Err(SessionError::Kernel(e));
            },
        };
        match reason {
            StopReason::TrappedOrStopped => {
                let rec = match self.breakpoints.lookup(a) {
                    Some(rec) => rec,
                    None => {
                        // a pending re-arm always refers to a planted breakpoint
                        proof {
                            assert(false);
                        }
                        return Err(SessionError::Kernel(0));
                    },
                };
                let ghost mw = h.mem@;
                match rec.activate(h) {
                    Ok(()) => {},
                    Err(e) => {
                        return Err(SessionError::BreakpointIo(e.0));
                    },
                }
                proof {
                    crate::breakpoint::lemma_write_read_round_trip(
                        mw,
                        rec.pc_addr,
                        patch_spec(rec.original_insn),
                    );
                }
                self.pending_rearm = None;
                if cont {
                    match resume(h) {
                        Ok(()) => {
                            self.state = SessionState::Running;
                            Ok(TargetStat::Running)
                        },
                        Err(e) => Err(SessionError::Kernel(e)),
                    }
                } else {
                    self.state = SessionState::AwaitingUserCommand;
                    Ok(TargetStat::AwaitingCommand)
                }
            },
            _ => {
                self.pending_rearm = None;
                self.state = SessionState::Killed;
                Ok(TargetStat::TargetGone(reason))
            },
        }
    }

    /// Execute one typed operation against the stopped target, per the
    /// command table: resumptions change the state to `Running`, queries and
    /// mutations finish synchronously and keep awaiting commands, `quit`
    /// kills the target, and every error leaves the session state unchanged
    /// so the user can retry.
    pub fn execute_command(&mut self, h: &mut TargetHandle, op: &Operation) -> (r: Result<
        TargetStat,
        SessionError,
    >)
        requires
            old(self).wf(),
            old(self).state == SessionState::AwaitingUserCommand,
        ensures
            final(self).wf(),
            final(self).symbols == old(self).symbols,
            match r {
                Ok(TargetStat::Running) => (op@ == OpSpec::Step || op@ == OpSpec::Continue)
                    && final(self).state == SessionState::Running && final(self).pending_rearm
                    is None && final(self).breakpoints@ == old(self).breakpoints@,
                Ok(TargetStat::AwaitingCommand) => final(self).state
                    == SessionState::AwaitingUserCommand && final(self).breakpoints@ == old(self).breakpoints@ && ((op@ == OpSpec::Step && (old(self).pending_rearm matches Some(a)
                    && word_of_bytes(final(h).mem@, a) == patch_spec(
                    old(self).breakpoints@[a].original_insn,
                )) && final(self).pending_rearm is None) || (op@ matches OpSpec::Write { addr, val }
                    && final(h).mem@ == set_word(old(h).mem@, addr, val) && final(h).regs@ == old(h).regs@ && final(self).pending_rearm == old(self).pending_rearm)),
                Ok(TargetStat::Killed) => op@ == OpSpec::Quit && final(self).state
                    == SessionState::Killed && final(self).breakpoints@ == old(self).breakpoints@
                    && final(self).pending_rearm == old(self).pending_rearm,
                Ok(TargetStat::TargetGone(_)) => (op@ == OpSpec::Step || op@ == OpSpec::Continue)
                    && old(self).pending_rearm is Some && final(self).pending_rearm is None
                    && final(self).state == SessionState::Killed && final(self).breakpoints@
                    == old(self).breakpoints@,
                Ok(TargetStat::BreakpointAdded(rec)) => (op@ matches OpSpec::SetBreakpoint {
                    file,
                    line,
                } && old(self).symbols matches Some(idx) && spec_resolve(idx@, file, line) == Some(
                    rec.pc_addr,
                )) && !old(self).breakpoints@.contains_key(rec.pc_addr) && final(self).breakpoints@
                    == old(self).breakpoints@.insert(rec.pc_addr, rec) && rec.original_insn
                    == word_of_bytes(old(h).mem@, rec.pc_addr) && final(h).mem@ == set_word(
                    old(h).mem@,
                    rec.pc_addr,
                    patch_spec(rec.original_insn),
                ) && final(self).state == SessionState::AwaitingUserCommand && final(self).pending_rearm == old(self).pending_rearm,
                Ok(TargetStat::BreakpointAlreadySet(a)) => (op@ matches OpSpec::SetBreakpoint {
                    file,
                    line,
                } && old(self).symbols matches Some(idx) && spec_resolve(idx@, file, line) == Some(
                    a,
                )) && old(self).breakpoints@.contains_key(a) && final(self).breakpoints@ == old(self).breakpoints@ && final(h).mem@ == old(h).mem@ && final(h).regs@ == old(h).regs@
                    && final(self).state == SessionState::AwaitingUserCommand && final(self).pending_rearm == old(self).pending_rearm,
                Ok(TargetStat::RegistersRead(regs)) => op@ == OpSpec::ViewRegisters && regs == old(h).regs@ && final(self).state == SessionState::AwaitingUserCommand && final(h).mem@
                    == old(h).mem@ && final(h).regs@ == old(h).regs@ && final(self).breakpoints@
                    == old(self).breakpoints@ && final(self).pending_rearm == old(self).pending_rearm,
                Ok(TargetStat::WordRead { addr, val }) => op@ == OpSpec::Read { addr } && val
                    == word_of_bytes(old(h).mem@, addr) && final(self).state
                    == SessionState::AwaitingUserCommand && final(h).mem@ == old(h).mem@ && final(h).regs@ == old(h).regs@ && final(self).breakpoints@ == old(self).breakpoints@
                    && final(self).pending_rearm == old(self).pending_rearm,
                Ok(TargetStat::HelpShown(lines)) => op@ == OpSpec::Help && is_help_listing(lines@)
                    && final(self).state == SessionState::AwaitingUserCommand && final(h).mem@
                    == old(h).mem@ && final(h).regs@ == old(h).regs@ && final(self).breakpoints@
                    == old(self).breakpoints@ && final(self).pending_rearm == old(self).pending_rearm,
                Err(SessionError::NoSymbols) => (op@ matches OpSpec::SetBreakpoint { file, line })
                    && old(self).symbols is None && final(h).mem@ == old(h).mem@ && final(h).regs@
                    == old(h).regs@,
                Err(SessionError::ResolveFailed) => (op@ matches OpSpec::SetBreakpoint {
                    file,
                    line,
                } && old(self).symbols matches Some(idx) && spec_resolve(idx@, file, line)
                    is None) && final(h).mem@ == old(h).mem@ && final(h).regs@ == old(h).regs@,
                Err(SessionError::AddressOutOfRange) => (match op@ {
                    OpSpec::Read { addr } => addr + 7 > u64::MAX,
                    OpSpec::Write { addr, val } => addr + 7 > u64::MAX,
                    OpSpec::SetBreakpoint { file, line } => old(self).symbols matches Some(idx)
                        && (spec_resolve(idx@, file, line) matches Some(a) && a + 7 > u64::MAX),
                    _ => false,
                }) && final(h).mem@ == old(h).mem@ && final(h).regs@ == old(h).regs@,
                Err(_) => true,
            },
            // every error keeps the session retryable: the state and the
            // table are unchanged, and a pending re-arm is at most discharged
            // (the trap may have been re-installed just before a resumption
            // was refused), never invented
            r is Err ==> final(self).state == old(self).state && final(self).breakpoints@ == old(self).breakpoints@ && (final(self).pending_rearm == old(self).pending_rearm || (old(self).pending_rearm is Some && final(self).pending_rearm is None)),
            // what each operation is owed when no kernel call decides it
            (match op@ {
                OpSpec::Help => r matches Ok(TargetStat::HelpShown(lines)) && is_help_listing(
                    lines@,
                ),
                OpSpec::Read { addr } => addr + 7 > u64::MAX ==> r == Err::<
                    TargetStat,
                    SessionError,
                >(SessionError::AddressOutOfRange),
                OpSpec::Write { addr, val } => addr + 7 > u64::MAX ==> r == Err::<
                    TargetStat,
                    SessionError,
                >(SessionError::AddressOutOfRange),
                OpSpec::SetBreakpoint { file, line } => match old(self).symbols {
                    Some(idx) => match spec_resolve(idx@, file, line) {
                        Some(a) => if a + 7 <= u64::MAX {
                            old(self).breakpoints@.contains_key(a) ==> r == Ok::<
                                TargetStat,
                                SessionError,
                            >(TargetStat::BreakpointAlreadySet(a))
                        } else {
                            r == Err::<TargetStat, SessionError>(SessionError::AddressOutOfRange)
                        },
                        None => r == Err::<TargetStat, SessionError>(SessionError::ResolveFailed),
                    },
                    None => r == Err::<TargetStat, SessionError>(SessionError::NoSymbols),
                },
                _ => true,
            }),
    {
        match op {
            Operation::Step => self.resume_target(h, false),
            Operation::Continue => self.resume_target(h, true),
            Operation::ViewRegisters => match read_registers(h) {
                Ok(regs) => Ok(TargetStat::RegistersRead(regs)),
                Err(e) => Err(SessionError::Kernel(e)),
            },
            Operation::Read(rw) => {
                if rw.addr > u64::MAX - 7 {
                    return Err(SessionError::AddressOutOfRange);
                }
                match read_word(h, rw.addr) {
                    Ok(val) => Ok(TargetStat::WordRead { addr: rw.addr, val }),
                    Err(e) => Err(SessionError::Kernel(e)),
                }
            },
            Operation::Write(ww) => {
                if ww.addr > u64::MAX - 7 {
                    return Err(SessionError::AddressOutOfRange);
                }
                match crate::target::write_word(h, ww.addr, ww.val) {
                    Ok(()) => Ok(TargetStat::AwaitingCommand),
                    Err(e) => Err(SessionError::Kernel(e)),
                }
            },
            Operation::SetBreakpoint { file, line } => {
                let bp = match self.resolve_breakpoint(file.as_slice(), *line) {
                    Ok(bp) => bp,
                    Err(e) => {
                        return Err(e);
                    },
                };
                if bp.0 > u64::MAX - 7 {
                    return Err(SessionError::AddressOutOfRange);
                }
                match self.breakpoints.set(h, bp.0) {
                    Ok(SetOutcome::Installed(rec)) => Ok(TargetStat::BreakpointAdded(rec)),
                    Ok(SetOutcome::AlreadySet) => Ok(TargetStat::BreakpointAlreadySet(bp.0)),
                    Err(e) => Err(SessionError::BreakpointIo(e.0)),
                }
            },
            Operation::Quit => match kill(h) {
                Ok(()) => {
                    self.state = SessionState::Killed;
                    Ok(TargetStat::Killed)
                },
                Err(e) => Err(SessionError::Kernel(e)),
            },
            Operation::Help => Ok(TargetStat::HelpShown(help_lines())),
        }
    }
}

/// Builds a `TraceeDbg`: the program path and the debug information are
/// optional; the breakpoint table starts empty and the session starts by
/// awaiting the target's first stop.
pub struct TraceeBuilder {
    /// The path of the program to spawn, if any.
    pub program: Option<Vec<u8>>,
    /// The decoded debug information, if any was loaded.
    pub symbols: Option<DebugInfoIndex>,
}

impl TraceeBuilder {
    /// Set the program path to spawn.
    pub fn program(self, program: Vec<u8>) -> (r: TraceeBuilder)
        ensures
            r.program == Some(program),
            r.symbols == self.symbols,
    {
        TraceeBuilder { program: Some(program), ..self }
    }

    /// Decode the raw line-number section bytes and keep the index when they
    /// decode; malformed bytes leave the session without symbols.
    pub fn dwarf_symbols(self, debug_line: &[u8]) -> (r: TraceeBuilder)
        ensures
            r.program == self.program,
            match r.symbols {
                Some(idx) => crate::symbol::spec_units(debug_line@, 0) == Some(idx@),
                None => crate::symbol::spec_units(debug_line@, 0) is None,
            },
    {
        match crate::symbol::load_dwarf_data(debug_line) {
            Ok(idx) => TraceeBuilder { symbols: Some(idx), ..self },
            Err(_) => TraceeBuilder { symbols: None, ..self },
        }
    }

    /// Finish: an empty breakpoint table, no pending re-arm, and the initial
    /// control-loop state, awaiting the target's first stop.
    pub fn build(self) -> (r: TraceeDbg)
        ensures
            r.program == self.program,
            r.symbols == self.symbols,
            r.breakpoints@ == Map::<u64, BrkptRecord>::empty(),
            r.state == SessionState::AwaitingProcessStop,
            r.pending_rearm is None,
            r.wf(),
    {
        TraceeDbg {
            program: self.program,
            breakpoints: BreakpointTable::new(),
            symbols: self.symbols,
            state: SessionState::AwaitingProcessStop,
            pending_rearm: None,
        }
    }
}

} // verus!
