use traceedb::breakpoint::{patch_word, BreakpointTable, BrkptRecord, TRAP_OPCODE};
use traceedb::target::TargetHandle;

// a process identifier no live process has, so every kernel request on it
// is refused
const DEAD_PID: i32 = 0x7FFF_FFF0;

#[test]
fn patched_word_replaces_only_the_low_byte() {
    let w: u64 = 0x1122_3344_5566_7788;
    let p = patch_word(w);
    assert_eq!(p & 0xFF, TRAP_OPCODE);
    assert_eq!(p & 0xFFFF_FFFF_FFFF_FF00, w & 0xFFFF_FFFF_FFFF_FF00);
    assert_eq!(p, 0x1122_3344_5566_77CC);
}

#[test]
fn patching_preserves_an_already_trapped_word() {
    let w: u64 = 0xCC;
    assert_eq!(patch_word(w), 0xCC);
}

#[test]
fn record_keeps_address_and_original_word() {
    let rec = BrkptRecord::new(0x401136, 0xdeadbeef);
    assert_eq!(rec.pc_addr, 0x401136);
    assert_eq!(rec.original_insn, 0xdeadbeef);
}

#[test]
fn empty_table_has_no_records() {
    let table = BreakpointTable::new();
    assert!(table.lookup(0x401136).is_none());
}

#[test]
fn on_stop_without_a_matching_record_corrects_nothing() {
    let table = BreakpointTable::new();
    let mut h = TargetHandle::new(DEAD_PID);
    // a stop whose pointer minus one matches no record is left alone
    assert_eq!(table.on_stop(&mut h, 0x401137), Ok(None));
    // a stop at address zero cannot be a breakpoint hit
    assert_eq!(table.on_stop(&mut h, 0), Ok(None));
}

#[test]
fn set_on_a_dead_target_reports_the_kernel_error() {
    let mut table = BreakpointTable::new();
    let mut h = TargetHandle::new(DEAD_PID);
    // the word at the address cannot be read, so nothing is recorded
    assert!(table.set(&mut h, 0x401136).is_err());
    assert!(table.lookup(0x401136).is_none());
}

#[test]
fn clear_of_an_absent_record_is_a_no_op() {
    let mut table = BreakpointTable::new();
    let mut h = TargetHandle::new(DEAD_PID);
    assert_eq!(table.clear(&mut h, 0x401136), Ok(()));
}
