use traceedb::command::{
    help_lines, parse_file_and_lineno, parse_hex_u64, parse_line, split_tokens, Breakpoint,
    Continue, Help, HelpMe, Operation, ParseError, Quit, ReadWord, Step, ViewRegisters, WriteWord,
};

#[test]
fn parse_step_and_alias() {
    assert_eq!(parse_line(b"step"), Ok(Operation::Step));
    assert_eq!(parse_line(b"s"), Ok(Operation::Step));
}

#[test]
fn parse_continue_and_alias() {
    assert_eq!(parse_line(b"continue"), Ok(Operation::Continue));
    assert_eq!(parse_line(b"c"), Ok(Operation::Continue));
}

#[test]
fn parse_registers_and_alias() {
    assert_eq!(parse_line(b"registers"), Ok(Operation::ViewRegisters));
    assert_eq!(parse_line(b"reg"), Ok(Operation::ViewRegisters));
}

#[test]
fn parse_quit_and_alias() {
    assert_eq!(parse_line(b"quit"), Ok(Operation::Quit));
    assert_eq!(parse_line(b"q"), Ok(Operation::Quit));
}

#[test]
fn parse_help_and_alias() {
    assert_eq!(parse_line(b"help"), Ok(Operation::Help));
    assert_eq!(parse_line(b"h"), Ok(Operation::Help));
}

#[test]
fn parse_read_and_alias() {
    assert_eq!(
        parse_line(b"read 401136"),
        Ok(Operation::Read(ReadWord { addr: 0x401136 }))
    );
    assert_eq!(
        parse_line(b"r deadBEEF"),
        Ok(Operation::Read(ReadWord { addr: 0xdeadbeef }))
    );
}

#[test]
fn parse_write_and_alias() {
    assert_eq!(
        parse_line(b"write 401136 deadbeef"),
        Ok(Operation::Write(WriteWord {
            addr: 0x401136,
            val: 0xdeadbeef
        }))
    );
    assert_eq!(
        parse_line(b"w 10 20"),
        Ok(Operation::Write(WriteWord { addr: 0x10, val: 0x20 }))
    );
}

#[test]
fn parse_breakpoint_and_alias() {
    assert_eq!(
        parse_line(b"breakpoint main.c:10"),
        Ok(Operation::SetBreakpoint {
            file: b"main.c".to_vec(),
            line: 10
        })
    );
    assert_eq!(
        parse_line(b"b prog.c:5"),
        Ok(Operation::SetBreakpoint {
            file: b"prog.c".to_vec(),
            line: 5
        })
    );
}

#[test]
fn parse_write_with_one_operand_is_insufficient() {
    assert_eq!(parse_line(b"w 10"), Err(ParseError::MissingWriteOperands));
    assert_eq!(parse_line(b"write"), Err(ParseError::MissingWriteOperands));
}

#[test]
fn parse_read_with_bad_hex_is_an_error() {
    assert_eq!(parse_line(b"r zz"), Err(ParseError::BadHexOperand));
    assert_eq!(parse_line(b"w 10 zz"), Err(ParseError::BadHexOperand));
}

#[test]
fn parse_read_without_operand_is_an_error() {
    assert_eq!(parse_line(b"r"), Err(ParseError::MissingReadAddr));
    assert_eq!(parse_line(b"read"), Err(ParseError::MissingReadAddr));
}

#[test]
fn parse_unknown_and_empty() {
    assert_eq!(parse_line(b"frobnicate"), Err(ParseError::UnknownCommand));
    assert_eq!(parse_line(b""), Err(ParseError::EmptyInput));
    assert_eq!(parse_line(b"   \t  "), Err(ParseError::EmptyInput));
}

#[test]
fn parse_breakpoint_operand_errors() {
    assert_eq!(parse_line(b"b"), Err(ParseError::MissingBreakpointArg));
    assert_eq!(parse_line(b"b main.c"), Err(ParseError::BadLocationFormat));
    assert_eq!(parse_line(b"b a:b:c"), Err(ParseError::BadLocationFormat));
    assert_eq!(parse_line(b"b main.c:"), Err(ParseError::BadLineNumber));
    assert_eq!(parse_line(b"b main.c:x5"), Err(ParseError::BadLineNumber));
}

#[test]
fn parse_ignores_extra_tokens() {
    assert_eq!(parse_line(b"s extra tokens"), Ok(Operation::Step));
    assert_eq!(
        parse_line(b"r 10 20"),
        Ok(Operation::Read(ReadWord { addr: 0x10 }))
    );
}

#[test]
fn parse_handles_surrounding_whitespace() {
    assert_eq!(
        parse_line(b"  w\t10   20  \n"),
        Ok(Operation::Write(WriteWord { addr: 0x10, val: 0x20 }))
    );
}

#[test]
fn split_tokens_splits_on_whitespace() {
    let ts = split_tokens(b"  one\ttwo  three ");
    let ts: Vec<&[u8]> = ts.iter().map(|t| t.as_slice()).collect();
    assert_eq!(ts, vec![&b"one"[..], &b"two"[..], &b"three"[..]]);
}

#[test]
fn hex_parsing_exact_values() {
    assert_eq!(parse_hex_u64(b"0"), Some(0));
    assert_eq!(parse_hex_u64(b"ff"), Some(255));
    assert_eq!(parse_hex_u64(b"FFFFFFFFFFFFFFFF"), Some(u64::MAX));
    assert_eq!(parse_hex_u64(b"10000000000000000"), None);
    assert_eq!(parse_hex_u64(b""), None);
    assert_eq!(parse_hex_u64(b"1g"), None);
}

#[test]
fn numeric_operands_accept_one_leading_plus() {
    // the standard unsigned parsers accept a single leading plus sign
    assert_eq!(parse_hex_u64(b"+ff"), Some(255));
    assert_eq!(parse_hex_u64(b"+"), None);
    assert_eq!(parse_hex_u64(b"++1"), None);
    assert_eq!(
        parse_line(b"r +10"),
        Ok(Operation::Read(ReadWord { addr: 0x10 }))
    );
    let (file, line) = parse_file_and_lineno(b"main.c:+5").unwrap();
    assert_eq!(file, b"main.c".to_vec());
    assert_eq!(line, 5);
    assert_eq!(
        parse_file_and_lineno(b"main.c:+"),
        Err(ParseError::BadLineNumber)
    );
}

#[test]
fn file_and_lineno_round_trip() {
    let (file, line) = parse_file_and_lineno(b"main.c:42").unwrap();
    assert_eq!(file, b"main.c".to_vec());
    assert_eq!(line, 42);
    let (file, line) = parse_file_and_lineno(b":7").unwrap();
    assert_eq!(file, b"".to_vec());
    assert_eq!(line, 7);
    assert_eq!(
        parse_file_and_lineno(b"nocolon"),
        Err(ParseError::BadLocationFormat)
    );
    assert_eq!(
        parse_file_and_lineno(b"main.c:99999999999999999999999"),
        Err(ParseError::BadLineNumber)
    );
}

#[test]
fn parse_error_messages() {
    assert_eq!(
        ParseError::UnknownCommand.message(),
        "Could not recognize command!"
    );
    assert_eq!(
        ParseError::MissingReadAddr.message(),
        "Missing the address to read from"
    );
    assert_eq!(
        ParseError::BadHexOperand.message(),
        "Failed to parse: please supply hex value!"
    );
    assert_eq!(
        ParseError::BadLocationFormat.message(),
        "Failed to parse, please supply in format of file:lineno"
    );
    assert_eq!(
        ParseError::BadLineNumber.message(),
        "Failed to parse a line number from supplied argument!"
    );
}

#[test]
fn help_texts_match_the_command_table() {
    assert_eq!(Step::help(), "s/step = step through process");
    assert_eq!(Continue::help(), "c/continue = run through process");
    assert_eq!(ViewRegisters::help(), "reg/registers = view register contents");
    assert_eq!(Quit::help(), "q/quit = quit debugger and kill process");
    assert_eq!(HelpMe::help(), "h/help = prints this help message");
    assert_eq!(
        ReadWord::help(),
        "r/read <hex address> = read word from process address space"
    );
    assert_eq!(
        WriteWord::help(),
        "w/write <hex address> <hex value> = write word to address in process space"
    );
    assert_eq!(
        Breakpoint::help(),
        "b/breakpoint <file:line> = a standard breakpoint"
    );
}

#[test]
fn help_listing_has_every_command() {
    let lines = help_lines();
    assert_eq!(lines.len(), 8);
    assert_eq!(lines[0], Step::help());
    assert_eq!(lines[7], HelpMe::help());
}
