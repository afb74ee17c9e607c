//! Scenarios against a live traced process: a busy shell child is spawned
//! and attached to, and the breakpoint machinery is exercised through the
//! real kernel trace primitives.

use nix::spawn::{posix_spawn, PosixSpawnAttr, PosixSpawnFileActions};
use nix::sys::signal::{kill as send_signal, Signal};
use nix::unistd::Pid;

use traceedb::breakpoint::TRAP_OPCODE;
use traceedb::command::{Operation, ReadWord, WriteWord};
use traceedb::session::{SessionState, StopOutcome, TargetStat, TraceeDbg};
use traceedb::target::{
    attach, read_registers, read_word, wait_for_stop, write_registers, write_word, StopReason,
    TargetHandle,
};

/// Kills the spawned child even when an assertion fails mid-test.
struct ChildGuard(i32);

impl Drop for ChildGuard {
    fn drop(&mut self) {
        let _ = send_signal(Pid::from_raw(self.0), Signal::SIGKILL);
    }
}

/// Spawn a busy child, attach to it, and consume its first stop.
fn attach_to_busy_child() -> (ChildGuard, TraceeDbg, TargetHandle) {
    let attr = PosixSpawnAttr::init().expect("spawn attributes");
    let actions = PosixSpawnFileActions::init().expect("spawn file actions");
    let args = [c"sh", c"-c", c"while :; do :; done"];
    let pid = posix_spawn("/bin/sh", &actions, &attr, &args, &args[0..0])
        .expect("failed to spawn the busy child");
    let guard = ChildGuard(pid.as_raw());
    // give the child a moment to reach its loop
    nix::unistd::sleep(1);
    let mut dbg = TraceeDbg::builder().build();
    let mut handle = attach(pid.as_raw()).expect("failed to attach to the child");
    let reason = wait_for_stop(&mut handle).expect("failed to wait for the attach stop");
    assert_eq!(reason, StopReason::TrappedOrStopped);
    match dbg.handle_stop(&mut handle, reason) {
        Ok(StopOutcome::Stopped { corrected: None }) => {}
        _ => panic!("the attach stop must stop the session without a correction"),
    }
    assert_eq!(dbg.state, SessionState::AwaitingUserCommand);
    (guard, dbg, handle)
}

/// End a live session: kill the target through the session and reap it.
fn shut_down(dbg: &mut TraceeDbg, handle: &mut TargetHandle) {
    match dbg.execute_command(handle, &Operation::Quit) {
        Ok(TargetStat::Killed) => {}
        _ => panic!("quit must kill the target"),
    }
    assert_eq!(dbg.state, SessionState::Killed);
    let _ = wait_for_stop(handle);
}

#[test]
fn live_spawn_and_singlestep() {
    let (_guard, mut dbg, mut handle) = attach_to_busy_child();
    // a single step yields either another stop or an exit
    match dbg.execute_command(&mut handle, &Operation::Step) {
        Ok(TargetStat::Running) => {}
        other => panic!("step must resume the target, got {:?}", other.is_ok()),
    }
    assert_eq!(dbg.state, SessionState::Running);
    let reason = wait_for_stop(&mut handle).expect("failed to wait after the step");
    assert!(matches!(
        reason,
        StopReason::TrappedOrStopped | StopReason::Exited(_)
    ));
    match dbg.handle_stop(&mut handle, reason) {
        Ok(StopOutcome::Stopped { .. }) | Ok(StopOutcome::Ended(_)) => {}
        Err(_) => panic!("the post-step stop must be handled"),
    }
    if dbg.state == SessionState::AwaitingUserCommand {
        shut_down(&mut dbg, &mut handle);
    }
}

#[test]
fn live_breakpoint_round_trip_restores_memory() {
    let (_guard, mut dbg, mut handle) = attach_to_busy_child();
    let regs = read_registers(&handle).expect("failed to read registers");
    let a = regs.rip;
    let w = read_word(&handle, a).expect("failed to read the original word");

    // plant: the low byte becomes the trap opcode, the rest is preserved
    match dbg.breakpoints.set(&mut handle, a) {
        Ok(traceedb::breakpoint::SetOutcome::Installed(rec)) => {
            assert_eq!(rec.pc_addr, a);
            assert_eq!(rec.original_insn, w);
        }
        _ => panic!("the first set must install a record"),
    }
    let patched = read_word(&handle, a).expect("failed to read the patched word");
    assert_eq!(patched & 0xFF, TRAP_OPCODE);
    assert_eq!(patched & !0xFF, w & !0xFF);

    // planting again changes nothing and says so
    match dbg.breakpoints.set(&mut handle, a) {
        Ok(traceedb::breakpoint::SetOutcome::AlreadySet) => {}
        _ => panic!("the second set must be a signalled no-op"),
    }
    assert_eq!(
        read_word(&handle, a).expect("failed to re-read the word"),
        patched
    );

    // clearing restores the word exactly
    dbg.breakpoints
        .clear(&mut handle, a)
        .expect("failed to clear the breakpoint");
    assert_eq!(read_word(&handle, a).expect("failed to read back"), w);
    assert!(dbg.breakpoints.lookup(a).is_none());

    shut_down(&mut dbg, &mut handle);
}

#[test]
fn live_write_then_read_round_trip() {
    let (_guard, mut dbg, mut handle) = attach_to_busy_child();
    let regs = read_registers(&handle).expect("failed to read registers");
    let spot = (regs.rsp - 64) & !7; // a writable stack address
    // through the raw word primitives
    write_word(&mut handle, spot, 0xdeadbeef).expect("failed to write the word");
    assert_eq!(
        read_word(&handle, spot).expect("failed to read the word back"),
        0xdeadbeef
    );
    // and through the write and read commands
    let w = Operation::Write(WriteWord { addr: spot, val: 0xfeedface });
    assert!(matches!(
        dbg.execute_command(&mut handle, &w),
        Ok(TargetStat::AwaitingCommand)
    ));
    let r = Operation::Read(ReadWord { addr: spot });
    match dbg.execute_command(&mut handle, &r) {
        Ok(TargetStat::WordRead { addr, val }) => {
            assert_eq!(addr, spot);
            assert_eq!(val, 0xfeedface);
        }
        _ => panic!("the read command must return the written word"),
    }
    shut_down(&mut dbg, &mut handle);
}

#[test]
fn live_trap_correction_and_rearm() {
    let (_guard, mut dbg, mut handle) = attach_to_busy_child();
    let mut regs = read_registers(&handle).expect("failed to read registers");
    let a = regs.rip;
    let w = read_word(&handle, a).expect("failed to read the original word");
    match dbg.breakpoints.set(&mut handle, a) {
        Ok(traceedb::breakpoint::SetOutcome::Installed(_)) => {}
        _ => panic!("the set must install a record"),
    }

    // fabricate the register state the kernel leaves after the trap fires:
    // the pointer rests one byte past the patched address
    regs.rip = a + 1;
    write_registers(&mut handle, regs).expect("failed to write registers");

    match dbg.handle_stop(&mut handle, StopReason::TrappedOrStopped) {
        Ok(StopOutcome::Stopped { corrected: Some(hit) }) => assert_eq!(hit, a),
        _ => panic!("the trap must be corrected against the table"),
    }
    // the pointer is rewound to the breakpoint address exactly
    assert_eq!(
        read_registers(&handle).expect("failed to re-read registers").rip,
        a
    );
    // the memory holds the original instruction again
    assert_eq!(read_word(&handle, a).expect("failed to read the word"), w);
    // and the breakpoint stays armed in the table
    assert!(dbg.breakpoints.lookup(a).is_some());
    assert_eq!(dbg.pending_rearm, Some(a));

    // stepping over the restored instruction re-installs the trap
    match dbg.execute_command(&mut handle, &Operation::Step) {
        Ok(TargetStat::AwaitingCommand) => {}
        Ok(TargetStat::TargetGone(_)) => return, // the child ended under us
        _ => panic!("the step must finish the pending re-arm"),
    }
    assert!(dbg.pending_rearm.is_none());
    let rearmed = read_word(&handle, a).expect("failed to read the re-armed word");
    assert_eq!(rearmed & 0xFF, TRAP_OPCODE);

    shut_down(&mut dbg, &mut handle);
}
