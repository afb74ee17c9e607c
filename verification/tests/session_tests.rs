use traceedb::command::{
    parse_line, Breakpoint, Continue, Help, HelpMe, Operation, Quit, ReadWord, Step,
    ViewRegisters, WriteWord,
};
use traceedb::session::{
    SessionError, SessionState, StopOutcome, TargetStat, TraceeDbg,
};
use traceedb::symbol::LineRow;
use traceedb::target::{StopReason, TargetHandle};

const GONE_PID: i32 = 0x7FFF_FFF1;

/// A one-unit line-number section for `prog.c` whose line 5 is at 0x401136.
fn prog_c_section() -> Vec<u8> {
    let name = b"prog.c";
    let mut tail: Vec<u8> = vec![1, 1, 0xFB, 14, 13];
    tail.extend_from_slice(&[0, 1, 1, 1, 1, 0, 0, 0, 1, 0, 0, 1]);
    tail.push(0);
    tail.extend_from_slice(name);
    tail.extend_from_slice(&[0, 0, 0, 0, 0]);
    let header_length = tail.len() as u32;
    let mut prog: Vec<u8> = vec![0, 9, 2];
    prog.extend_from_slice(&0x401130u64.to_le_bytes());
    prog.extend_from_slice(&[3, 4, 2, 6, 1]); // line += 4, addr += 6, copy
    prog.extend_from_slice(&[0, 1, 1]); // end_sequence
    let mut unit: Vec<u8> = Vec::new();
    let unit_length = 2 + 4 + tail.len() + prog.len();
    unit.extend_from_slice(&(unit_length as u32).to_le_bytes());
    unit.extend_from_slice(&3u16.to_le_bytes());
    unit.extend_from_slice(&header_length.to_le_bytes());
    unit.extend_from_slice(&tail);
    unit.extend_from_slice(&prog);
    unit
}

#[test]
fn builder_starts_awaiting_the_first_stop() {
    let dbg = TraceeDbg::builder().build();
    assert_eq!(dbg.state, SessionState::AwaitingProcessStop);
    assert!(dbg.symbols.is_none());
    assert!(dbg.program.is_none());
    assert!(dbg.pending_rearm.is_none());
}

#[test]
fn builder_keeps_program_and_symbols() {
    let section = prog_c_section();
    let dbg = TraceeDbg::builder()
        .program(b"/bin/true".to_vec())
        .dwarf_symbols(&section)
        .build();
    assert_eq!(dbg.program, Some(b"/bin/true".to_vec()));
    let idx = dbg.symbols.as_ref().unwrap();
    assert_eq!(idx.units.len(), 1);
    assert_eq!(idx.units[0].name, b"prog.c".to_vec());
    assert_eq!(
        idx.units[0].rows,
        vec![LineRow {
            line: 5,
            address: 0x401136
        }]
    );
}

#[test]
fn malformed_symbols_leave_the_session_without_an_index() {
    let dbg = TraceeDbg::builder().dwarf_symbols(&[0xFF, 0xFF]).build();
    assert!(dbg.symbols.is_none());
}

#[test]
fn resolving_without_symbols_fails_distinctly() {
    let dbg = TraceeDbg::builder().build();
    assert_eq!(
        dbg.resolve_breakpoint(b"prog.c", 5),
        Err(SessionError::NoSymbols)
    );
}

#[test]
fn resolving_a_known_location_yields_its_address() {
    let section = prog_c_section();
    let dbg = TraceeDbg::builder().dwarf_symbols(&section).build();
    let bp = dbg.resolve_breakpoint(b"prog.c", 5).unwrap();
    assert_eq!(bp.0, 0x401136);
    assert_eq!(
        dbg.resolve_breakpoint(b"prog.c", 999),
        Err(SessionError::ResolveFailed)
    );
    assert_eq!(
        dbg.resolve_breakpoint(b"other.c", 5),
        Err(SessionError::ResolveFailed)
    );
}

#[test]
fn target_exit_ends_the_session() {
    let mut dbg = TraceeDbg::builder().build();
    let mut h = TargetHandle::new(GONE_PID);
    match dbg.handle_stop(&mut h, StopReason::Exited(0)) {
        Ok(StopOutcome::Ended(StopReason::Exited(0))) => {}
        _ => panic!("an exited target must end the session with its reason"),
    }
    assert_eq!(dbg.state, SessionState::Killed);
}

#[test]
fn segfault_ends_the_session() {
    let mut dbg = TraceeDbg::builder().build();
    let mut h = TargetHandle::new(GONE_PID);
    match dbg.handle_stop(&mut h, StopReason::Segfaulted) {
        Ok(StopOutcome::Ended(StopReason::Segfaulted)) => {}
        _ => panic!("a segfault must end the session with its reason"),
    }
    assert_eq!(dbg.state, SessionState::Killed);
}

#[test]
fn help_command_lists_every_command() {
    let mut dbg = TraceeDbg::builder().build();
    dbg.state = SessionState::AwaitingUserCommand;
    let mut h = TargetHandle::new(GONE_PID);
    let op = parse_line(b"help").unwrap();
    match dbg.execute_command(&mut h, &op) {
        Ok(TargetStat::HelpShown(lines)) => {
            assert_eq!(
                lines,
                vec![
                    Step::help(),
                    Continue::help(),
                    ViewRegisters::help(),
                    ReadWord::help(),
                    WriteWord::help(),
                    Breakpoint::help(),
                    Quit::help(),
                    HelpMe::help(),
                ]
            );
        }
        _ => panic!("help must produce the command listing"),
    }
    assert_eq!(dbg.state, SessionState::AwaitingUserCommand);
}

#[test]
fn word_access_near_the_address_space_end_is_rejected() {
    let mut dbg = TraceeDbg::builder().build();
    dbg.state = SessionState::AwaitingUserCommand;
    let mut h = TargetHandle::new(GONE_PID);
    let op = parse_line(b"r fffffffffffffff9").unwrap();
    assert!(matches!(
        dbg.execute_command(&mut h, &op),
        Err(SessionError::AddressOutOfRange)
    ));
    assert_eq!(dbg.state, SessionState::AwaitingUserCommand);
}

#[test]
fn breakpoint_command_without_symbols_is_refused() {
    let mut dbg = TraceeDbg::builder().build();
    dbg.state = SessionState::AwaitingUserCommand;
    let mut h = TargetHandle::new(GONE_PID);
    let op = parse_line(b"b prog.c:5").unwrap();
    assert!(matches!(
        dbg.execute_command(&mut h, &op),
        Err(SessionError::NoSymbols)
    ));
    assert_eq!(dbg.state, SessionState::AwaitingUserCommand);
}

#[test]
fn unresolvable_breakpoint_location_is_refused() {
    let section = prog_c_section();
    let mut dbg = TraceeDbg::builder().dwarf_symbols(&section).build();
    dbg.state = SessionState::AwaitingUserCommand;
    let mut h = TargetHandle::new(GONE_PID);
    let op = parse_line(b"b prog.c:6").unwrap();
    assert!(matches!(
        dbg.execute_command(&mut h, &op),
        Err(SessionError::ResolveFailed)
    ));
    assert_eq!(dbg.state, SessionState::AwaitingUserCommand);
}

#[test]
fn kernel_refusal_on_a_dead_target_is_reported() {
    let mut dbg = TraceeDbg::builder().build();
    dbg.state = SessionState::AwaitingUserCommand;
    let mut h = TargetHandle::new(GONE_PID);
    let op = Operation::ViewRegisters;
    assert!(matches!(
        dbg.execute_command(&mut h, &op),
        Err(SessionError::Kernel(_))
    ));
    // the transient failure keeps the session awaiting the user
    assert_eq!(dbg.state, SessionState::AwaitingUserCommand);
}

#[test]
fn session_error_messages() {
    assert_eq!(
        SessionError::NoSymbols.message(),
        "Cannot resolve source lines without debug symbols!"
    );
    assert_eq!(SessionError::ResolveFailed.message(), "Failed to resolve address!");
}
