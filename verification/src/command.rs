//! Command interpreter: turns one line of user text into exactly one typed
//! operation, never partially.
//!
//! The grammar is whitespace-delimited tokens; the first token is the verb.
//! Each verb has a one-letter alias. Operands are hexadecimal words for
//! `read`/`write` and a `file:line` source location for `breakpoint`. Every
//! parse failure is a distinct error value; nothing here panics.

use vstd::prelude::*;

verus! {

/// Whitespace, as the tokenizer sees it: space and the ASCII control
/// whitespace characters (tab through carriage return).
pub open spec fn is_ws(b: u8) -> bool {
    b == 0x20 || (0x09 <= b <= 0x0D)
}

/// Length of the leading run of non-whitespace bytes.
pub open spec fn token_len(s: Seq<u8>) -> int
    decreases s.len(),
{
    if s.len() == 0 || is_ws(s[0]) {
        0
    } else {
        1 + token_len(s.drop_first())
    }
}

proof fn lemma_token_len_bounds(s: Seq<u8>)
    ensures
        0 <= token_len(s) <= s.len(),
    decreases s.len(),
{
    if s.len() == 0 || is_ws(s[0]) {
    } else {
        lemma_token_len_bounds(s.drop_first());
    }
}

/// The whitespace-delimited tokens of a line, in order.
pub open spec fn tokens(s: Seq<u8>) -> Seq<Seq<u8>>
    decreases s.len(),
    via tokens_decreases
{
    if s.len() == 0 {
        Seq::empty()
    } else if is_ws(s[0]) {
        tokens(s.drop_first())
    } else {
        let k = token_len(s);
        seq![s.take(k)].add(tokens(s.skip(k)))
    }
}

#[via_fn]
proof fn tokens_decreases(s: Seq<u8>) {
    if s.len() != 0 && !is_ws(s[0]) {
        lemma_token_len_bounds(s);
        lemma_token_len_bounds(s.drop_first());
        assert(token_len(s) >= 1);
        assert(s.skip(token_len(s)).len() < s.len());
    }
}

/// Skipping one whitespace byte does not change the token list.
proof fn lemma_tokens_skip_ws(s: Seq<u8>, i: int)
    requires
        0 <= i < s.len(),
        is_ws(s[i]),
    ensures
        tokens(s.skip(i)) == tokens(s.skip(i + 1)),
{
    assert(s.skip(i).drop_first() =~= s.skip(i + 1));
}

/// A maximal run of non-whitespace bytes is the leading token.
proof fn lemma_token_len_scan(s: Seq<u8>, start: int, j: int)
    requires
        0 <= start <= j <= s.len(),
        forall|m: int| start <= m < j ==> !is_ws(s[m]),
        j == s.len() || is_ws(s[j]),
    ensures
        token_len(s.skip(start)) == j - start,
    decreases j - start,
{
    if start == j {
    } else {
        assert(s.skip(start)[0] == s[start]);
        assert(s.skip(start).drop_first() =~= s.skip(start + 1));
        lemma_token_len_scan(s, start + 1, j);
    }
}

/// At the start of a token, the token list is that token followed by the
/// tokens of the rest.
proof fn lemma_tokens_at_token(s: Seq<u8>, start: int, j: int)
    requires
        0 <= start <= j <= s.len(),
        start < j,
        forall|m: int| start <= m < j ==> !is_ws(s[m]),
        j == s.len() || is_ws(s[j]),
    ensures
        tokens(s.skip(start)) == seq![s.subrange(start, j)].add(tokens(s.skip(j))),
{
    lemma_token_len_scan(s, start, j);
    let t = s.skip(start);
    assert(t[0] == s[start]);
    assert(!is_ws(t[0]));
    let k = token_len(t);
    assert(k == j - start);
    assert(t.take(k) =~= s.subrange(start, j));
    assert(t.skip(k) =~= s.skip(j));
}

/// Whether `b` is a whitespace byte.
fn is_ws_byte(b: u8) -> (r: bool)
    ensures
        r == is_ws(b),
{
    b == 0x20 || (0x09 <= b && b <= 0x0D)
}

/// Split a line into its whitespace-delimited tokens.
pub fn split_tokens(s: &[u8]) -> (r: Vec<Vec<u8>>)
    ensures
        r@.map_values(|t: Vec<u8>| t@) == tokens(s@),
{
    let mut r: Vec<Vec<u8>> = Vec::new();
    let mut i: usize = 0;
    proof {
        assert(s@.skip(0) =~= s@);
        assert(r@.map_values(|t: Vec<u8>| t@).add(tokens(s@.skip(0))) =~= tokens(s@));
    }
    while i < s.len()
        invariant
            i <= s.len(),
            tokens(s@) == r@.map_values(|t: Vec<u8>| t@).add(tokens(s@.skip(i as int))),
        decreases s.len() - i,
    {
        if is_ws_byte(s[i]) {
            proof {
                lemma_tokens_skip_ws(s@, i as int);
            }
            i = i + 1;
        } else {
            let start = i;
            let mut j = start;
            while j < s.len() && !is_ws_byte(s[j])
                invariant
                    start <= j <= s.len(),
                    start < s.len(),
                    forall|m: int| start <= m < j ==> !is_ws(s@[m]),
                decreases s.len() - j,
            {
                j = j + 1;
            }
            let mut tok: Vec<u8> = Vec::new();
            let mut m = start;
            while m < j
                invariant
                    start <= m <= j <= s.len(),
                    tok@ == s@.subrange(start as int, m as int),
                decreases j - m,
            {
                tok.push(s[m]);
                proof {
                    assert(tok@ =~= s@.subrange(start as int, m + 1 as int));
                }
                m = m + 1;
            }
            proof {
                lemma_tokens_at_token(s@, start as int, j as int);
                let f = |t: Vec<u8>| t@;
                assert(r@.push(tok).map_values(f) =~= r@.map_values(f).push(tok@));
                assert(r@.map_values(f).push(tok@).add(tokens(s@.skip(j as int))) =~= r@.map_values(
                    f,
                ).add(seq![s@.subrange(start as int, j as int)].add(tokens(s@.skip(j as int)))));
            }
            r.push(tok);
            i = j;
        }
    }
    proof {
        assert(s@.skip(i as int) =~= Seq::<u8>::empty());
        assert(tokens(s@.skip(i as int)) =~= Seq::<Seq<u8>>::empty());
        assert(r@.map_values(|t: Vec<u8>| t@).add(tokens(s@.skip(i as int))) =~= r@.map_values(
            |t: Vec<u8>| t@,
        ));
    }
    r
}

/// Hexadecimal digit bytes, both cases.
pub open spec fn is_hex_digit(b: u8) -> bool {
    (0x30 <= b <= 0x39) || (0x61 <= b <= 0x66) || (0x41 <= b <= 0x46)
}

/// The numeric value of one hexadecimal digit byte.
pub open spec fn hex_digit_val(b: u8) -> nat {
    if 0x30 <= b <= 0x39 {
        (b - 0x30) as nat
    } else if 0x61 <= b <= 0x66 {
        (b - 0x61 + 10) as nat
    } else if 0x41 <= b <= 0x46 {
        (b - 0x41 + 10) as nat
    } else {
        0
    }
}

pub open spec fn all_hex(s: Seq<u8>) -> bool {
    forall|i: int| 0 <= i < s.len() ==> is_hex_digit(s[i])
}

/// The value of a string of hexadecimal digits, most significant first.
pub open spec fn hex_value(s: Seq<u8>) -> nat
    decreases s.len(),
{
    if s.len() == 0 {
        0
    } else {
        hex_value(s.drop_last()) * 16 + hex_digit_val(s.last())
    }
}

/// The digits of a numeric operand: at most one leading plus sign is
/// allowed and ignored, as the standard numeric parsers allow it.
pub open spec fn sign_stripped(s: Seq<u8>) -> Seq<u8> {
    if s.len() > 0 && s[0] == 0x2Bu8 {
        s.drop_first()
    } else {
        s
    }
}

/// The meaning of a hexadecimal operand: after an optional plus sign, a
/// non-empty run of hexadecimal digits whose value fits a machine word;
/// anything else is rejected.
pub open spec fn spec_parse_hex(s: Seq<u8>) -> Option<u64> {
    let body = sign_stripped(s);
    if body.len() > 0 && all_hex(body) && hex_value(body) <= u64::MAX {
        Some(hex_value(body) as u64)
    } else {
        None
    }
}

/// Decimal digit bytes.
pub open spec fn is_dec_digit(b: u8) -> bool {
    0x30 <= b <= 0x39
}

pub open spec fn all_dec(s: Seq<u8>) -> bool {
    forall|i: int| 0 <= i < s.len() ==> is_dec_digit(s[i])
}

/// The value of a string of decimal digits, most significant first.
pub open spec fn dec_value(s: Seq<u8>) -> nat
    decreases s.len(),
{
    if s.len() == 0 {
        0
    } else {
        dec_value(s.drop_last()) * 10 + (s.last() - 0x30) as nat
    }
}

/// The meaning of a decimal operand such as a line number: after an
/// optional plus sign, a non-empty run of decimal digits whose value fits a
/// machine word.
pub open spec fn spec_parse_dec(s: Seq<u8>) -> Option<u64> {
    let body = sign_stripped(s);
    if body.len() > 0 && all_dec(body) && dec_value(body) <= u64::MAX {
        Some(dec_value(body) as u64)
    } else {
        None
    }
}

proof fn lemma_hex_value_step(s: Seq<u8>, i: int)
    requires
        0 <= i < s.len(),
    ensures
        hex_value(s.take(i + 1)) == hex_value(s.take(i)) * 16 + hex_digit_val(s[i]),
{
    assert(s.take(i + 1).drop_last() =~= s.take(i));
    assert(s.take(i + 1).last() == s[i]);
}

proof fn lemma_dec_value_step(s: Seq<u8>, i: int)
    requires
        0 <= i < s.len(),
    ensures
        dec_value(s.take(i + 1)) == dec_value(s.take(i)) * 10 + (s[i] - 0x30) as nat,
{
    assert(s.take(i + 1).drop_last() =~= s.take(i));
    assert(s.take(i + 1).last() == s[i]);
}

proof fn lemma_hex_value_monotone(s: Seq<u8>, i: int, j: int)
    requires
        0 <= i <= j <= s.len(),
    ensures
        hex_value(s.take(j)) >= hex_value(s.take(i)),
    decreases j - i,
{
    if i < j {
        lemma_hex_value_monotone(s, i, j - 1);
        lemma_hex_value_step(s, j - 1);
    }
}

proof fn lemma_dec_value_monotone(s: Seq<u8>, i: int, j: int)
    requires
        0 <= i <= j <= s.len(),
    ensures
        dec_value(s.take(j)) >= dec_value(s.take(i)),
    decreases j - i,
{
    if i < j {
        lemma_dec_value_monotone(s, i, j - 1);
        lemma_dec_value_step(s, j - 1);
    }
}

/// Parse a non-empty run of hexadecimal digits into a word; `None` on any
/// non-digit byte, an empty run, or overflow.
fn parse_hex_digits(s: &[u8]) -> (r: Option<u64>)
    ensures
        r == (if s@.len() > 0 && all_hex(s@) && hex_value(s@) <= u64::MAX {
            Some(hex_value(s@) as u64)
        } else {
            None::<u64>
        }),
{
    if s.len() == 0 {
        return None;
    }
    let mut v: u64 = 0;
    let mut i: usize = 0;
    proof {
        assert(s@.take(0) =~= Seq::<u8>::empty());
    }
    while i < s.len()
        invariant
            i <= s.len(),
            forall|m: int| 0 <= m < i ==> is_hex_digit(s@[m]),
            v == hex_value(s@.take(i as int)),
        decreases s.len() - i,
    {
        let b = s[i];
        let d: u64;
        if 0x30 <= b && b <= 0x39 {
            d = (b - 0x30) as u64;
        } else if 0x61 <= b && b <= 0x66 {
            d = (b - 0x61) as u64 + 10;
        } else if 0x41 <= b && b <= 0x46 {
            d = (b - 0x41) as u64 + 10;
        } else {
            assert(!is_hex_digit(s@[i as int]));
            return None;
        }
        proof {
            lemma_hex_value_step(s@, i as int);
            assert(d == hex_digit_val(s@[i as int]));
        }
        if v > u64::MAX / 16 {
            proof {
                assert(hex_value(s@.take(i + 1 as int)) > u64::MAX);
                lemma_hex_value_monotone(s@, i + 1 as int, s@.len() as int);
                assert(s@.take(s@.len() as int) =~= s@);
            }
            return None;
        }
        v = v * 16 + d;
        i = i + 1;
    }
    proof {
        assert(s@.take(i as int) =~= s@);
    }
    Some(v)
}

/// Parse a non-empty run of decimal digits into a word; `None` on any
/// non-digit byte, an empty run, or overflow.
fn parse_dec_digits(s: &[u8]) -> (r: Option<u64>)
    ensures
        r == (if s@.len() > 0 && all_dec(s@) && dec_value(s@) <= u64::MAX {
            Some(dec_value(s@) as u64)
        } else {
            None::<u64>
        }),
{
    if s.len() == 0 {
        return None;
    }
    let mut v: u64 = 0;
    let mut i: usize = 0;
    proof {
        assert(s@.take(0) =~= Seq::<u8>::empty());
    }
    while i < s.len()
        invariant
            i <= s.len(),
            forall|m: int| 0 <= m < i ==> is_dec_digit(s@[m]),
            v == dec_value(s@.take(i as int)),
        decreases s.len() - i,
    {
        let b = s[i];
        if !(0x30 <= b && b <= 0x39) {
            assert(!is_dec_digit(s@[i as int]));
            return None;
        }
        let d: u64 = (b - 0x30) as u64;
        proof {
            lemma_dec_value_step(s@, i as int);
            assert(d == (s@[i as int] - 0x30) as nat);
        }
        if v > u64::MAX / 10 || (v == u64::MAX / 10 && d > u64::MAX % 10) {
            proof {
                assert(dec_value(s@.take(i + 1 as int)) > u64::MAX);
                lemma_dec_value_monotone(s@, i + 1 as int, s@.len() as int);
                assert(s@.take(s@.len() as int) =~= s@);
            }
            return None;
        }
        v = v * 10 + d;
        i = i + 1;
    }
    proof {
        assert(s@.take(i as int) =~= s@);
    }
    Some(v)
}


/// Parse a hexadecimal operand: an optional leading plus sign, then digits,
/// exactly as the standard unsigned parser with radix 16 accepts.
pub fn parse_hex_u64(s: &[u8]) -> (r: Option<u64>)
    ensures
        r == spec_parse_hex(s@),
{
    if s.len() > 0 && s[0] == 0x2B {
        let (_, rest) = s.split_at(1);
        proof {
            assert(rest@ =~= s@.drop_first());
        }
        parse_hex_digits(rest)
    } else {
        parse_hex_digits(s)
    }
}

/// Parse a decimal operand: an optional leading plus sign, then digits,
/// exactly as the standard unsigned parser accepts.
pub fn parse_dec_u64(s: &[u8]) -> (r: Option<u64>)
    ensures
        r == spec_parse_dec(s@),
{
    if s.len() > 0 && s[0] == 0x2B {
        let (_, rest) = s.split_at(1);
        proof {
            assert(rest@ =~= s@.drop_first());
        }
        parse_dec_digits(rest)
    } else {
        parse_dec_digits(s)
    }
}

/// A command parse failure. Each failure mode is a distinct value; the
/// session reports it and the user retries.
#[derive(Clone, Copy, Debug, PartialEq, Eq, Structural)]
pub enum ParseError {
    /// The line held no tokens at all.
    EmptyInput,
    /// The verb is not in the command table.
    UnknownCommand,
    /// `read` was given no address operand.
    MissingReadAddr,
    /// An operand that had to be a hexadecimal word was not one.
    BadHexOperand,
    /// `write` was given fewer than two operands.
    MissingWriteOperands,
    /// `breakpoint` was given no location operand.
    MissingBreakpointArg,
    /// The location operand was not of the form `file:line`.
    BadLocationFormat,
    /// The part after the colon was not a decimal line number.
    BadLineNumber,
}

impl ParseError {
    /// The user-facing text for this failure.
    pub open spec fn message_spec(self) -> Seq<char> {
        match self {
            ParseError::EmptyInput => "No command entered!"@,
            ParseError::UnknownCommand => "Could not recognize command!"@,
            ParseError::MissingReadAddr => "Missing the address to read from"@,
            ParseError::BadHexOperand => "Failed to parse: please supply hex value!"@,
            ParseError::MissingWriteOperands => "Failed to parse args for writing word!"@,
            ParseError::MissingBreakpointArg => "Insufficient arguments for command!"@,
            ParseError::BadLocationFormat => (
            "Failed to parse, please supply in format of file:lineno"@),
            ParseError::BadLineNumber => (
            "Failed to parse a line number from supplied argument!"@),
        }
    }

    /// The user-facing text for this failure.
    pub fn message(&self) -> (r: &'static str)
        ensures
            r@ == self.message_spec(),
    {
        match self {
            ParseError::EmptyInput => "No command entered!",
            ParseError::UnknownCommand => "Could not recognize command!",
            ParseError::MissingReadAddr => "Missing the address to read from",
            ParseError::BadHexOperand => "Failed to parse: please supply hex value!",
            ParseError::MissingWriteOperands => "Failed to parse args for writing word!",
            ParseError::MissingBreakpointArg => "Insufficient arguments for command!",
            ParseError::BadLocationFormat => "Failed to parse, please supply in format of file:lineno",
            ParseError::BadLineNumber => "Failed to parse a line number from supplied argument!",
        }
    }
}

/// Position `i` holds the only colon in `s`.
pub open spec fn is_only_colon(s: Seq<u8>, i: int) -> bool {
    0 <= i < s.len() && s[i] == 0x3Au8 && (forall|j: int|
        0 <= j < s.len() && j != i ==> s[j] != 0x3Au8)
}

/// `s` holds exactly one colon.
pub open spec fn exactly_one_colon(s: Seq<u8>) -> bool {
    exists|i: int| is_only_colon(s, i)
}

/// The position of the only colon in `s`.
pub open spec fn colon_pos(s: Seq<u8>) -> int {
    choose|i: int| is_only_colon(s, i)
}

/// The meaning of a `file:line` location operand: the bytes before the only
/// colon name the file, the bytes after it spell a decimal line number.
pub open spec fn spec_parse_location(s: Seq<u8>) -> Result<(Seq<u8>, u64), ParseError> {
    if !exactly_one_colon(s) {
        Err(ParseError::BadLocationFormat)
    } else {
        let i = colon_pos(s);
        match spec_parse_dec(s.skip(i + 1)) {
            Some(l) => Ok((s.take(i), l)),
            None => Err(ParseError::BadLineNumber),
        }
    }
}

/// Split a `file:line` operand at its only colon and parse the line number.
pub fn parse_file_and_lineno(s: &[u8]) -> (r: Result<(Vec<u8>, u64), ParseError>)
    ensures
        match r {
            Ok((f, l)) => spec_parse_location(s@) == Ok::<(Seq<u8>, u64), ParseError>((f@, l)),
            Err(e) => spec_parse_location(s@) == Err::<(Seq<u8>, u64), ParseError>(e),
        },
{
    // find the first colon
    let mut f: usize = 0;
    while f < s.len() && s[f] != 0x3A
        invariant
            f <= s.len(),
            forall|j: int| 0 <= j < f ==> s@[j] != 0x3Au8,
        decreases s.len() - f,
    {
        f = f + 1;
    }
    if f == s.len() {
        proof {
            assert forall|i: int| !is_only_colon(s@, i) by {
                if 0 <= i < s@.len() {
                    assert(s@[i] != 0x3Au8);
                }
            }
        }
        return Err(ParseError::BadLocationFormat);
    }
    // make sure there is no second colon
    let mut g: usize = f + 1;
    while g < s.len() && s[g] != 0x3A
        invariant
            f < g <= s.len(),
            forall|j: int| f < j < g ==> s@[j] != 0x3Au8,
        decreases s.len() - g,
    {
        g = g + 1;
    }
    if g < s.len() {
        proof {
            assert forall|i: int| !is_only_colon(s@, i) by {
                if is_only_colon(s@, i) {
                    if i == f {
                        assert(s@[g as int] != 0x3Au8);
                    } else {
                        assert(s@[f as int] != 0x3Au8);
                    }
                }
            }
        }
        return Err(ParseError::BadLocationFormat);
    }
    proof {
        assert(is_only_colon(s@, f as int));
        assert(exactly_one_colon(s@));
        let cp = colon_pos(s@);
        assert(is_only_colon(s@, cp));
        assert(cp == f as int);
    }
    // copy the file name (the bytes before the colon)
    let mut file: Vec<u8> = Vec::new();
    let mut m: usize = 0;
    while m < f
        invariant
            m <= f <= s.len(),
            file@ == s@.subrange(0, m as int),
        decreases f - m,
    {
        file.push(s[m]);
        proof {
            assert(file@ =~= s@.subrange(0, m + 1 as int));
        }
        m = m + 1;
    }
    proof {
        assert(file@ =~= s@.take(f as int));
    }
    // copy and parse the line number (the bytes after the colon)
    let mut line_bytes: Vec<u8> = Vec::new();
    let mut n: usize = f + 1;
    while n < s.len()
        invariant
            f + 1 <= n <= s.len(),
            line_bytes@ == s@.subrange(f + 1 as int, n as int),
        decreases s.len() - n,
    {
        line_bytes.push(s[n]);
        proof {
            assert(line_bytes@ =~= s@.subrange(f + 1 as int, n + 1 as int));
        }
        n = n + 1;
    }
    proof {
        assert(line_bytes@ =~= s@.skip(f + 1 as int));
    }
    match parse_dec_u64(line_bytes.as_slice()) {
        Some(l) => Ok((file, l)),
        None => Err(ParseError::BadLineNumber),
    }
}

/// The token is the `step` verb or its alias `s`.
pub open spec fn verb_is_step(v: Seq<u8>) -> bool {
    (v.len() == 1 && v[0] == 0x73u8) || (v.len() == 4 && v[0] == 0x73u8 && v[1] == 0x74u8 && v[2] == 0x65u8 && v[3] == 0x70u8)
}

fn tok_is_step(t: &[u8]) -> (r: bool)
    ensures
        r == verb_is_step(t@),
{
    (t.len() == 1 && t[0] == 0x73) || (t.len() == 4 && t[0] == 0x73 && t[1] == 0x74 && t[2] == 0x65 && t[3] == 0x70)
}

/// The token is the `continue` verb or its alias `c`.
pub open spec fn verb_is_continue(v: Seq<u8>) -> bool {
    (v.len() == 1 && v[0] == 0x63u8) || (v.len() == 8 && v[0] == 0x63u8 && v[1] == 0x6Fu8 && v[2] == 0x6Eu8 && v[3] == 0x74u8 && v[4] == 0x69u8 && v[5] == 0x6Eu8 && v[6] == 0x75u8 && v[7] == 0x65u8)
}

fn tok_is_continue(t: &[u8]) -> (r: bool)
    ensures
        r == verb_is_continue(t@),
{
    (t.len() == 1 && t[0] == 0x63) || (t.len() == 8 && t[0] == 0x63 && t[1] == 0x6F && t[2] == 0x6E && t[3] == 0x74 && t[4] == 0x69 && t[5] == 0x6E && t[6] == 0x75 && t[7] == 0x65)
}

/// The token is the `registers` verb or its alias `reg`.
pub open spec fn verb_is_registers(v: Seq<u8>) -> bool {
    (v.len() == 3 && v[0] == 0x72u8 && v[1] == 0x65u8 && v[2] == 0x67u8) || (v.len() == 9 && v[0] == 0x72u8 && v[1] == 0x65u8 && v[2] == 0x67u8 && v[3] == 0x69u8 && v[4] == 0x73u8 && v[5] == 0x74u8 && v[6] == 0x65u8 && v[7] == 0x72u8 && v[8] == 0x73u8)
}

fn tok_is_registers(t: &[u8]) -> (r: bool)
    ensures
        r == verb_is_registers(t@),
{
    (t.len() == 3 && t[0] == 0x72 && t[1] == 0x65 && t[2] == 0x67) || (t.len() == 9 && t[0] == 0x72 && t[1] == 0x65 && t[2] == 0x67 && t[3] == 0x69 && t[4] == 0x73 && t[5] == 0x74 && t[6] == 0x65 && t[7] == 0x72 && t[8] == 0x73)
}

/// The token is the `read` verb or its alias `r`.
pub open spec fn verb_is_read(v: Seq<u8>) -> bool {
    (v.len() == 1 && v[0] == 0x72u8) || (v.len() == 4 && v[0] == 0x72u8 && v[1] == 0x65u8 && v[2] == 0x61u8 && v[3] == 0x64u8)
}

fn tok_is_read(t: &[u8]) -> (r: bool)
    ensures
        r == verb_is_read(t@),
{
    (t.len() == 1 && t[0] == 0x72) || (t.len() == 4 && t[0] == 0x72 && t[1] == 0x65 && t[2] == 0x61 && t[3] == 0x64)
}

/// The token is the `write` verb or its alias `w`.
pub open spec fn verb_is_write(v: Seq<u8>) -> bool {
    (v.len() == 1 && v[0] == 0x77u8) || (v.len() == 5 && v[0] == 0x77u8 && v[1] == 0x72u8 && v[2] == 0x69u8 && v[3] == 0x74u8 && v[4] == 0x65u8)
}

fn tok_is_write(t: &[u8]) -> (r: bool)
    ensures
        r == verb_is_write(t@),
{
    (t.len() == 1 && t[0] == 0x77) || (t.len() == 5 && t[0] == 0x77 && t[1] == 0x72 && t[2] == 0x69 && t[3] == 0x74 && t[4] == 0x65)
}

/// The token is the `breakpoint` verb or its alias `b`.
pub open spec fn verb_is_breakpoint(v: Seq<u8>) -> bool {
    (v.len() == 1 && v[0] == 0x62u8) || (v.len() == 10 && v[0] == 0x62u8 && v[1] == 0x72u8 && v[2] == 0x65u8 && v[3] == 0x61u8 && v[4] == 0x6Bu8 && v[5] == 0x70u8 && v[6] == 0x6Fu8 && v[7] == 0x69u8 && v[8] == 0x6Eu8 && v[9] == 0x74u8)
}

fn tok_is_breakpoint(t: &[u8]) -> (r: bool)
    ensures
        r == verb_is_breakpoint(t@),
{
    (t.len() == 1 && t[0] == 0x62) || (t.len() == 10 && t[0] == 0x62 && t[1] == 0x72 && t[2] == 0x65 && t[3] == 0x61 && t[4] == 0x6B && t[5] == 0x70 && t[6] == 0x6F && t[7] == 0x69 && t[8] == 0x6E && t[9] == 0x74)
}

/// The token is the `quit` verb or its alias `q`.
pub open spec fn verb_is_quit(v: Seq<u8>) -> bool {
    (v.len() == 1 && v[0] == 0x71u8) || (v.len() == 4 && v[0] == 0x71u8 && v[1] == 0x75u8 && v[2] == 0x69u8 && v[3] == 0x74u8)
}

fn tok_is_quit(t: &[u8]) -> (r: bool)
    ensures
        r == verb_is_quit(t@),
{
    (t.len() == 1 && t[0] == 0x71) || (t.len() == 4 && t[0] == 0x71 && t[1] == 0x75 && t[2] == 0x69 && t[3] == 0x74)
}

/// The token is the `help` verb or its alias `h`.
pub open spec fn verb_is_help(v: Seq<u8>) -> bool {
    (v.len() == 1 && v[0] == 0x68u8) || (v.len() == 4 && v[0] == 0x68u8 && v[1] == 0x65u8 && v[2] == 0x6Cu8 && v[3] == 0x70u8)
}

fn tok_is_help(t: &[u8]) -> (r: bool)
    ensures
        r == verb_is_help(t@),
{
    (t.len() == 1 && t[0] == 0x68) || (t.len() == 4 && t[0] == 0x68 && t[1] == 0x65 && t[2] == 0x6C && t[3] == 0x70)
}

/// The operand record of a `read` command.
#[derive(Clone, Copy, Debug, PartialEq, Eq, Structural)]
pub struct ReadWord {
    /// The address to read a word from.
    pub addr: u64,
}

/// The operand record of a `write` command.
#[derive(Clone, Copy, Debug, PartialEq, Eq, Structural)]
pub struct WriteWord {
    /// The address to write to.
    pub addr: u64,
    /// The word to write there.
    pub val: u64,
}

/// A breakpoint request that has been resolved to a machine address.
#[derive(Clone, Copy, Debug, PartialEq, Eq, Structural)]
pub struct Breakpoint(pub u64);

/// One typed operation, produced from one line of user text.
#[derive(Debug, PartialEq, Eq)]
pub enum Operation {
    /// Execute a single instruction.
    Step,
    /// Run freely until the next stop.
    Continue,
    /// Show the register contents.
    ViewRegisters,
    /// Read one word of target memory.
    Read(ReadWord),
    /// Write one word of target memory.
    Write(WriteWord),
    /// Plant a breakpoint at a source location, to be resolved against the
    /// loaded debug information.
    SetBreakpoint { file: Vec<u8>, line: u64 },
    /// Kill the target and end the session.
    Quit,
    /// Show the command list.
    Help,
}

/// Specification-level image of an `Operation`, with the file name as a
/// byte sequence.
pub enum OpSpec {
    Step,
    Continue,
    ViewRegisters,
    Read { addr: u64 },
    Write { addr: u64, val: u64 },
    SetBreakpoint { file: Seq<u8>, line: u64 },
    Quit,
    Help,
}

impl View for Operation {
    type V = OpSpec;

    open spec fn view(&self) -> OpSpec {
        match self {
            Operation::Step => OpSpec::Step,
            Operation::Continue => OpSpec::Continue,
            Operation::ViewRegisters => OpSpec::ViewRegisters,
            Operation::Read(rw) => OpSpec::Read { addr: rw.addr },
            Operation::Write(ww) => OpSpec::Write { addr: ww.addr, val: ww.val },
            Operation::SetBreakpoint { file, line } => OpSpec::SetBreakpoint {
                file: file@,
                line: *line,
            },
            Operation::Quit => OpSpec::Quit,
            Operation::Help => OpSpec::Help,
        }
    }
}

/// The whole command table (one row per verb/alias pair), as a function from
/// a token list to the operation it means or the failure it earns. Extra
/// tokens beyond a verb's operands are ignored.
pub open spec fn spec_parse(ts: Seq<Seq<u8>>) -> Result<OpSpec, ParseError> {
    if ts.len() == 0 {
        Err(ParseError::EmptyInput)
    } else {
        let v = ts[0];
        if verb_is_registers(v) {
            Ok(OpSpec::ViewRegisters)
        } else if verb_is_step(v) {
            Ok(OpSpec::Step)
        } else if verb_is_continue(v) {
            Ok(OpSpec::Continue)
        } else if verb_is_quit(v) {
            Ok(OpSpec::Quit)
        } else if verb_is_help(v) {
            Ok(OpSpec::Help)
        } else if verb_is_read(v) {
            if ts.len() < 2 {
                Err(ParseError::MissingReadAddr)
            } else {
                match spec_parse_hex(ts[1]) {
                    Some(a) => Ok(OpSpec::Read { addr: a }),
                    None => Err(ParseError::BadHexOperand),
                }
            }
        } else if verb_is_write(v) {
            if ts.len() < 3 {
                Err(ParseError::MissingWriteOperands)
            } else {
                match (spec_parse_hex(ts[1]), spec_parse_hex(ts[2])) {
                    (Some(a), Some(w)) => Ok(OpSpec::Write { addr: a, val: w }),
                    _ => Err(ParseError::BadHexOperand),
                }
            }
        } else if verb_is_breakpoint(v) {
            if ts.len() < 2 {
                Err(ParseError::MissingBreakpointArg)
            } else {
                match spec_parse_location(ts[1]) {
                    Ok((f, l)) => Ok(OpSpec::SetBreakpoint { file: f, line: l }),
                    Err(e) => Err(e),
                }
            }
        } else {
            Err(ParseError::UnknownCommand)
        }
    }
}

/// Parse one line of user text into exactly one typed operation, following
/// the command table.
pub fn parse_line(s: &[u8]) -> (r: Result<Operation, ParseError>)
    ensures
        match r {
            Ok(op) => spec_parse(tokens(s@)) == Ok::<OpSpec, ParseError>(op@),
            Err(e) => spec_parse(tokens(s@)) == Err::<OpSpec, ParseError>(e),
        },
{
    let ts = split_tokens(s);
    let ghost tsp = tokens(s@);
    proof {
        assert(tsp.len() == ts@.len());
    }
    if ts.len() == 0 {
        return Err(ParseError::EmptyInput);
    }
    proof {
        assert(tsp[0] == ts@[0]@);
    }
    let verb = ts[0].as_slice();
    if tok_is_registers(verb) {
        Ok(Operation::ViewRegisters)
    } else if tok_is_step(verb) {
        Ok(Operation::Step)
    } else if tok_is_continue(verb) {
        Ok(Operation::Continue)
    } else if tok_is_quit(verb) {
        Ok(Operation::Quit)
    } else if tok_is_help(verb) {
        Ok(Operation::Help)
    } else if tok_is_read(verb) {
        if ts.len() < 2 {
            return Err(ParseError::MissingReadAddr);
        }
        proof {
            assert(tsp[1] == ts@[1]@);
        }
        match parse_hex_u64(ts[1].as_slice()) {
            Some(a) => Ok(Operation::Read(ReadWord { addr: a })),
            None => Err(ParseError::BadHexOperand),
        }
    } else if tok_is_write(verb) {
        if ts.len() < 3 {
            return Err(ParseError::MissingWriteOperands);
        }
        proof {
            assert(tsp[1] == ts@[1]@);
            assert(tsp[2] == ts@[2]@);
        }
        let a = parse_hex_u64(ts[1].as_slice());
        let w = parse_hex_u64(ts[2].as_slice());
        match (a, w) {
            (Some(a), Some(w)) => Ok(Operation::Write(WriteWord { addr: a, val: w })),
            _ => Err(ParseError::BadHexOperand),
        }
    } else if tok_is_breakpoint(verb) {
        if ts.len() < 2 {
            return Err(ParseError::MissingBreakpointArg);
        }
        proof {
            assert(tsp[1] == ts@[1]@);
        }
        match parse_file_and_lineno(ts[1].as_slice()) {
            Ok((file, line)) => Ok(Operation::SetBreakpoint { file, line }),
            Err(e) => Err(e),
        }
    } else {
        Err(ParseError::UnknownCommand)
    }
}

/// A command's line in the help listing.
pub trait Help {
    /// The help line, as a character sequence.
    spec fn help_spec() -> Seq<char>;

    /// The help line describing the command and its operands.
    fn help() -> (r: &'static str)
        ensures
            r@ == Self::help_spec(),
    ;
}

/// The `step` command: execute a single instruction.
#[derive(Clone, Copy, Debug, PartialEq, Eq, Structural)]
pub struct Step;

impl Help for Step {
    open spec fn help_spec() -> Seq<char> {
        "s/step = step through process"@
    }

    fn help() -> (r: &'static str) {
        "s/step = step through process"
    }
}

/// The `continue` command: run until the next stop.
#[derive(Clone, Copy, Debug, PartialEq, Eq, Structural)]
pub struct Continue;

impl Help for Continue {
    open spec fn help_spec() -> Seq<char> {
        "c/continue = run through process"@
    }

    fn help() -> (r: &'static str) {
        "c/continue = run through process"
    }
}

/// The `registers` command: show register contents.
#[derive(Clone, Copy, Debug, PartialEq, Eq, Structural)]
pub struct ViewRegisters;

impl Help for ViewRegisters {
    open spec fn help_spec() -> Seq<char> {
        "reg/registers = view register contents"@
    }

    fn help() -> (r: &'static str) {
        "reg/registers = view register contents"
    }
}

/// The `quit` command: kill the target and leave.
#[derive(Clone, Copy, Debug, PartialEq, Eq, Structural)]
pub struct Quit;

impl Help for Quit {
    open spec fn help_spec() -> Seq<char> {
        "q/quit = quit debugger and kill process"@
    }

    fn help() -> (r: &'static str) {
        "q/quit = quit debugger and kill process"
    }
}

/// The `help` command: print the command list.
#[derive(Clone, Copy, Debug, PartialEq, Eq, Structural)]
pub struct HelpMe;

impl Help for HelpMe {
    open spec fn help_spec() -> Seq<char> {
        "h/help = prints this help message"@
    }

    fn help() -> (r: &'static str) {
        "h/help = prints this help message"
    }
}

impl Help for ReadWord {
    open spec fn help_spec() -> Seq<char> {
        "r/read <hex address> = read word from process address space"@
    }

    fn help() -> (r: &'static str) {
        "r/read <hex address> = read word from process address space"
    }
}

impl Help for WriteWord {
    open spec fn help_spec() -> Seq<char> {
        "w/write <hex address> <hex value> = write word to address in process space"@
    }

    fn help() -> (r: &'static str) {
        "w/write <hex address> <hex value> = write word to address in process space"
    }
}

impl Help for Breakpoint {
    open spec fn help_spec() -> Seq<char> {
        "b/breakpoint <file:line> = a standard breakpoint"@
    }

    fn help() -> (r: &'static str) {
        "b/breakpoint <file:line> = a standard breakpoint"
    }
}

/// The complete help listing: one line per command, in the order the
/// debugger prints them.
pub open spec fn is_help_listing(lines: Seq<&'static str>) -> bool {
    &&& lines.len() == 8
    &&& lines[0]@ == Step::help_spec()
    &&& lines[1]@ == Continue::help_spec()
    &&& lines[2]@ == ViewRegisters::help_spec()
    &&& lines[3]@ == ReadWord::help_spec()
    &&& lines[4]@ == WriteWord::help_spec()
    &&& lines[5]@ == Breakpoint::help_spec()
    &&& lines[6]@ == Quit::help_spec()
    &&& lines[7]@ == HelpMe::help_spec()
}

/// The help listing, one line per command, in the order the debugger prints
/// them.
pub fn help_lines() -> (r: Vec<&'static str>)
    ensures
        is_help_listing(r@),
{
    let mut r: Vec<&'static str> = Vec::new();
    r.push(Step::help());
    r.push(Continue::help());
    r.push(ViewRegisters::help());
    r.push(ReadWord::help());
    r.push(WriteWord::help());
    r.push(Breakpoint::help());
    r.push(Quit::help());
    r.push(HelpMe::help());
    r
}

} // verus!
