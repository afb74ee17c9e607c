use traceedb::symbol::{load_dwarf_data, src_line_to_addr, LineRow};

/// Append an unsigned LEB128 encoding of `v`.
fn push_uleb(out: &mut Vec<u8>, mut v: u64) {
    loop {
        let mut b = (v & 0x7F) as u8;
        v >>= 7;
        if v != 0 {
            b |= 0x80;
        }
        out.push(b);
        if v == 0 {
            break;
        }
    }
}

/// Append a signed LEB128 encoding of `v`.
fn push_sleb(out: &mut Vec<u8>, mut v: i64) {
    loop {
        let b = (v & 0x7F) as u8;
        v >>= 7;
        let sign = b & 0x40 != 0;
        if (v == 0 && !sign) || (v == -1 && sign) {
            out.push(b);
            break;
        }
        out.push(b | 0x80);
    }
}

/// Build one version-3 line-program unit for a file named `name`, starting
/// the address register at `start`, then emitting one row per `(line_delta,
/// addr_delta)` pair with the standard advance-line/advance-pc/copy opcodes.
fn build_unit(name: &[u8], start: u64, moves: &[(i64, u64)]) -> Vec<u8> {
    // header after the header_length field
    let mut tail: Vec<u8> = Vec::new();
    tail.push(1); // minimum_instruction_length
    tail.push(1); // default_is_stmt
    tail.push(0xFBu8); // line_base = -5
    tail.push(14); // line_range
    tail.push(13); // opcode_base
    tail.extend_from_slice(&[0, 1, 1, 1, 1, 0, 0, 0, 1, 0, 0, 1]); // standard opcode lengths
    tail.push(0); // end of include directories
    tail.extend_from_slice(name); // file entry 1: name
    tail.push(0);
    push_uleb(&mut tail, 0); // directory index
    push_uleb(&mut tail, 0); // mtime
    push_uleb(&mut tail, 0); // length
    tail.push(0); // end of file table
    let header_length = tail.len() as u32;

    // the opcode stream
    let mut prog: Vec<u8> = Vec::new();
    prog.push(0); // extended: set_address
    push_uleb(&mut prog, 9);
    prog.push(2);
    prog.extend_from_slice(&start.to_le_bytes());
    for &(dl, da) in moves {
        prog.push(3); // advance_line
        push_sleb(&mut prog, dl);
        prog.push(2); // advance_pc
        push_uleb(&mut prog, da);
        prog.push(1); // copy: emit a row
    }
    prog.push(0); // extended: end_sequence
    push_uleb(&mut prog, 1);
    prog.push(1);

    let mut unit: Vec<u8> = Vec::new();
    let unit_length = 2 + 4 + tail.len() + prog.len();
    unit.extend_from_slice(&(unit_length as u32).to_le_bytes());
    unit.extend_from_slice(&3u16.to_le_bytes()); // version
    unit.extend_from_slice(&header_length.to_le_bytes());
    unit.extend_from_slice(&tail);
    unit.extend_from_slice(&prog);
    unit
}

#[test]
fn empty_section_decodes_to_zero_units() {
    let idx = load_dwarf_data(b"").unwrap();
    assert_eq!(idx.units.len(), 0);
}

#[test]
fn one_unit_decodes_name_and_rows() {
    // line 1+9=10 at 0x401130+6, then line 20 at +4 more
    let section = build_unit(b"main.c", 0x401130, &[(9, 6), (10, 4)]);
    let idx = load_dwarf_data(&section).unwrap();
    assert_eq!(idx.units.len(), 1);
    assert_eq!(idx.units[0].name, b"main.c".to_vec());
    assert_eq!(
        idx.units[0].rows,
        vec![
            LineRow {
                line: 10,
                address: 0x401136
            },
            LineRow {
                line: 20,
                address: 0x40113A
            }
        ]
    );
}

#[test]
fn resolve_exact_line_hit_and_miss() {
    let section = build_unit(b"main.c", 0x401130, &[(9, 6), (10, 4)]);
    let idx = load_dwarf_data(&section).unwrap();
    assert_eq!(src_line_to_addr(&idx, b"main.c", 10), Some(0x401136));
    assert_eq!(src_line_to_addr(&idx, b"main.c", 20), Some(0x40113A));
    assert_eq!(src_line_to_addr(&idx, b"main.c", 999999), None);
    assert_eq!(src_line_to_addr(&idx, b"main.c", 11), None);
    assert_eq!(src_line_to_addr(&idx, b"other.c", 10), None);
}

#[test]
fn resolve_requires_exact_name_match() {
    let section = build_unit(b"src/main.c", 0x1000, &[(9, 0)]);
    let idx = load_dwarf_data(&section).unwrap();
    // no path normalization: only the exact recorded name matches
    assert_eq!(src_line_to_addr(&idx, b"main.c", 10), None);
    assert_eq!(src_line_to_addr(&idx, b"src/main.c", 10), Some(0x1000));
}

#[test]
fn resolve_returns_first_matching_row() {
    // two rows with the same line number: the first one wins
    let section = build_unit(b"dup.c", 0x2000, &[(4, 0), (0, 8)]);
    let idx = load_dwarf_data(&section).unwrap();
    assert_eq!(idx.units[0].rows[0], LineRow { line: 5, address: 0x2000 });
    assert_eq!(idx.units[0].rows[1], LineRow { line: 5, address: 0x2008 });
    assert_eq!(src_line_to_addr(&idx, b"dup.c", 5), Some(0x2000));
}

#[test]
fn resolve_scans_across_units() {
    let mut section = build_unit(b"one.c", 0x1000, &[(1, 0)]);
    section.extend_from_slice(&build_unit(b"two.c", 0x2000, &[(2, 0)]));
    let idx = load_dwarf_data(&section).unwrap();
    assert_eq!(idx.units.len(), 2);
    assert_eq!(src_line_to_addr(&idx, b"one.c", 2), Some(0x1000));
    assert_eq!(src_line_to_addr(&idx, b"two.c", 3), Some(0x2000));
    assert_eq!(src_line_to_addr(&idx, b"two.c", 2), None);
}

#[test]
fn breakpoint_scenario_line_resolves_to_its_address() {
    // a unit for prog.c whose line 5 sits at 0x401136
    let section = build_unit(b"prog.c", 0x401130, &[(4, 6)]);
    let idx = load_dwarf_data(&section).unwrap();
    assert_eq!(src_line_to_addr(&idx, b"prog.c", 5), Some(0x401136));
}

#[test]
fn truncated_input_is_malformed() {
    assert!(load_dwarf_data(&[0x01]).is_err());
    let section = build_unit(b"main.c", 0x401130, &[(9, 6)]);
    assert!(load_dwarf_data(&section[..section.len() - 1]).is_err());
}

#[test]
fn unsupported_version_is_malformed() {
    let mut section = build_unit(b"main.c", 0x401130, &[(9, 6)]);
    section[4] = 9; // version word
    section[5] = 0;
    assert!(load_dwarf_data(&section).is_err());
}

#[test]
fn special_opcodes_advance_address_and_line() {
    // build a unit that uses one special opcode instead of the standard ones:
    // opcode_base 13, line_base -5, line_range 14, so opcode 13 + (6-(-5)) +
    // 14*2 advances the address by 2 and the line by 6
    let mut unit = build_unit(b"spec.c", 0x3000, &[]);
    // rebuild the program by hand: set_address, one special opcode, end_sequence
    let name_len = b"spec.c".len();
    let tail_len = 5 + 12 + 1 + name_len + 1 + 3 + 1;
    let prog_off = 10 + tail_len;
    let mut prog: Vec<u8> = vec![0, 9, 2];
    prog.extend_from_slice(&0x3000u64.to_le_bytes());
    prog.push(13 + 11 + 28); // special: line += 6, addr += 2
    prog.extend_from_slice(&[0, 1, 1]); // end_sequence
    unit.truncate(prog_off);
    unit.extend_from_slice(&prog);
    let unit_length = (unit.len() - 4) as u32;
    unit[0..4].copy_from_slice(&unit_length.to_le_bytes());
    let idx = load_dwarf_data(&unit).unwrap();
    assert_eq!(
        idx.units[0].rows,
        vec![LineRow {
            line: 7,
            address: 0x3002
        }]
    );
}
