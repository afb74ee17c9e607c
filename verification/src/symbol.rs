//! Debug-info resolver: decodes the line-number programs embedded in a
//! target's debug sections and answers source-line-to-address queries.
//!
//! The decoder reads the standard line-number section of the embedded debug
//! information (32-bit format, versions 2 through 4): for each compilation
//! unit it runs the line-number program's state machine and collects the
//! emitted (line, address) rows, taking the unit's primary file name from
//! the header's file-name table. Every decoding function is specified by a
//! spec-level twin that defines the accepted grammar exactly.
//!
//! Two deliberate choices of this decoder are worth knowing. The unit's
//! recorded source name is the first entry of the line-table header's
//! file-name table, not the compilation unit's name attribute from the
//! separately encoded info section; the two usually agree but can differ on
//! unusual binaries. And the end of a sequence only resets the state
//! machine: no row is emitted for it, so the address where a sequence ends
//! is not itself matchable, where a row iterator that surfaces
//! end-of-sequence markers would offer one extra row with the last line
//! number.

use vstd::prelude::*;

verus! {

/// Read the byte at `p`.
pub open spec fn spec_u8_at(s: Seq<u8>, p: int) -> Option<(u8, int)> {
    if 0 <= p && p + 1 <= s.len() {
        Some((s[p], p + 1))
    } else {
        None
    }
}

/// Read a two-byte little-endian value at `p`.
pub open spec fn spec_u16_at(s: Seq<u8>, p: int) -> Option<(u16, int)> {
    if 0 <= p && p + 2 <= s.len() {
        Some((((s[p] as u16) | ((s[p + 1] as u16) << 8)), p + 2))
    } else {
        None
    }
}

/// Read a four-byte little-endian value at `p`.
pub open spec fn spec_u32_at(s: Seq<u8>, p: int) -> Option<(u32, int)> {
    if 0 <= p && p + 4 <= s.len() {
        Some(
            (
                ((s[p] as u32) | ((s[p + 1] as u32) << 8) | ((s[p + 2] as u32) << 16) | ((s[p + 3]
                    as u32) << 24)),
                p + 4,
            ),
        )
    } else {
        None
    }
}

/// Read an eight-byte little-endian value at `p`.
pub open spec fn spec_u64_at(s: Seq<u8>, p: int) -> Option<(u64, int)> {
    if 0 <= p && p + 8 <= s.len() {
        Some(
            (
                ((s[p] as u64) | ((s[p + 1] as u64) << 8) | ((s[p + 2] as u64) << 16) | ((s[p + 3]
                    as u64) << 24) | ((s[p + 4] as u64) << 32) | ((s[p + 5] as u64) << 40) | ((s[p
                    + 6] as u64) << 48) | ((s[p + 7] as u64) << 56)),
                p + 8,
            ),
        )
    } else {
        None
    }
}

/// Decode an unsigned LEB128 number at `p` into a word, rejecting encodings
/// whose value does not fit 64 bits. `shift` and `acc` carry the state of
/// the groups already read (0 at the start).
pub open spec fn spec_uleb(s: Seq<u8>, p: int, shift: u64, acc: u64) -> Option<(u64, int)>
    decreases s.len() - p,
{
    if p < 0 || p >= s.len() || shift >= 64 {
        None
    } else {
        let b = s[p];
        let low = (b & 0x7F) as u64;
        if (low << shift) >> shift != low {
            None
        } else {
            let acc2 = acc | (low << shift);
            if b < 0x80 {
                Some((acc2, p + 1))
            } else {
                spec_uleb(s, p + 1, (shift + 7) as u64, acc2)
            }
        }
    }
}

/// Decode a signed LEB128 number at `p`, rejecting encodings whose value
/// does not fit 64 bits.
pub open spec fn spec_sleb(s: Seq<u8>, p: int, shift: u64, acc: u64) -> Option<(i64, int)>
    decreases s.len() - p,
{
    if p < 0 || p >= s.len() || shift >= 64 {
        None
    } else {
        let b = s[p];
        let low = (b & 0x7F) as u64;
        if (low << shift) >> shift != low {
            None
        } else {
            let acc2 = acc | (low << shift);
            if b < 0x80 {
                if (b & 0x40) != 0 && shift + 7 < 64 {
                    Some(((acc2 | ((!0u64) << ((shift + 7) as u64))) as i64, p + 1))
                } else {
                    Some((acc2 as i64, p + 1))
                }
            } else {
                spec_sleb(s, p + 1, (shift + 7) as u64, acc2)
            }
        }
    }
}

/// Read a zero-terminated byte string at `p`, stopping before `end`; the
/// result excludes the terminator.
pub open spec fn spec_cstr(s: Seq<u8>, p: int, end: int) -> Option<(Seq<u8>, int)>
    decreases end - p,
{
    if !(0 <= p && p < end && end <= s.len()) {
        None
    } else if s[p] == 0 {
        Some((Seq::empty(), p + 1))
    } else {
        match spec_cstr(s, p + 1, end) {
            Some((t, q)) => Some((seq![s[p]].add(t), q)),
            None => None,
        }
    }
}

/// Read the byte at `p`; `None` past the end.
fn read_u8_at(s: &[u8], p: usize) -> (r: Option<(u8, usize)>)
    ensures
        match r {
            Some((v, q)) => spec_u8_at(s@, p as int) == Some((v, q as int)) && q <= s.len(),
            None => spec_u8_at(s@, p as int) is None,
        },
{
    if p < s.len() {
        Some((s[p], p + 1))
    } else {
        None
    }
}

/// Read a two-byte little-endian value at `p`.
fn read_u16_at(s: &[u8], p: usize) -> (r: Option<(u16, usize)>)
    ensures
        match r {
            Some((v, q)) => spec_u16_at(s@, p as int) == Some((v, q as int)) && q <= s.len(),
            None => spec_u16_at(s@, p as int) is None,
        },
{
    if p < s.len() && 2 <= s.len() - p {
        Some(((s[p] as u16) | ((s[p + 1] as u16) << 8u16), p + 2))
    } else {
        None
    }
}

/// Read a four-byte little-endian value at `p`.
fn read_u32_at(s: &[u8], p: usize) -> (r: Option<(u32, usize)>)
    ensures
        match r {
            Some((v, q)) => spec_u32_at(s@, p as int) == Some((v, q as int)) && q <= s.len(),
            None => spec_u32_at(s@, p as int) is None,
        },
{
    if p < s.len() && 4 <= s.len() - p {
        Some(
            (
                (s[p] as u32) | ((s[p + 1] as u32) << 8u32) | ((s[p + 2] as u32) << 16u32) | ((s[p
                    + 3] as u32) << 24u32),
                p + 4,
            ),
        )
    } else {
        None
    }
}

/// Read an eight-byte little-endian value at `p`.
fn read_u64_at(s: &[u8], p: usize) -> (r: Option<(u64, usize)>)
    ensures
        match r {
            Some((v, q)) => spec_u64_at(s@, p as int) == Some((v, q as int)) && q <= s.len(),
            None => spec_u64_at(s@, p as int) is None,
        },
{
    if p < s.len() && 8 <= s.len() - p {
        Some(
            (
                (s[p] as u64) | ((s[p + 1] as u64) << 8u64) | ((s[p + 2] as u64) << 16u64) | ((s[p
                    + 3] as u64) << 24u64) | ((s[p + 4] as u64) << 32u64) | ((s[p + 5] as u64)
                    << 40u64) | ((s[p + 6] as u64) << 48u64) | ((s[p + 7] as u64) << 56u64),
                p + 8,
            ),
        )
    } else {
        None
    }
}

/// Decode an unsigned LEB128 number at `p`.
fn read_uleb(s: &[u8], p: usize, shift: u64, acc: u64) -> (r: Option<(u64, usize)>)
    ensures
        match r {
            Some((v, q)) => spec_uleb(s@, p as int, shift, acc) == Some((v, q as int)) && p < q
                <= s.len(),
            None => spec_uleb(s@, p as int, shift, acc) is None,
        },
    decreases s.len() - p,
{
    if p >= s.len() || shift >= 64 {
        return None;
    }
    let b = s[p];
    let low = (b & 0x7F) as u64;
    if (low << shift) >> shift != low {
        return None;
    }
    let acc2 = acc | (low << shift);
    if b < 0x80 {
        Some((acc2, p + 1))
    } else {
        read_uleb(s, p + 1, shift + 7, acc2)
    }
}

/// Decode a signed LEB128 number at `p`.
fn read_sleb(s: &[u8], p: usize, shift: u64, acc: u64) -> (r: Option<(i64, usize)>)
    ensures
        match r {
            Some((v, q)) => spec_sleb(s@, p as int, shift, acc) == Some((v, q as int)) && p < q
                <= s.len(),
            None => spec_sleb(s@, p as int, shift, acc) is None,
        },
    decreases s.len() - p,
{
    if p >= s.len() || shift >= 64 {
        return None;
    }
    let b = s[p];
    let low = (b & 0x7F) as u64;
    if (low << shift) >> shift != low {
        return None;
    }
    let acc2 = acc | (low << shift);
    if b < 0x80 {
        if (b & 0x40) != 0 && shift + 7 < 64 {
            Some(((acc2 | ((!0u64) << (shift + 7))) as i64, p + 1))
        } else {
            Some((acc2 as i64, p + 1))
        }
    } else {
        read_sleb(s, p + 1, shift + 7, acc2)
    }
}

/// Read a zero-terminated byte string at `p`, stopping before `end`.
fn read_cstr(s: &[u8], p: usize, end: usize) -> (r: Option<(Vec<u8>, usize)>)
    requires
        end <= s.len(),
    ensures
        match r {
            Some((t, q)) => spec_cstr(s@, p as int, end as int) == Some((t@, q as int)) && p < q
                <= end,
            None => spec_cstr(s@, p as int, end as int) is None,
        },
{
    if p >= end {
        return None;
    }
    let mut out: Vec<u8> = Vec::new();
    let mut i = p;
    proof {
        assert(out@ =~= s@.subrange(p as int, p as int));
    }
    loop
        invariant
            p <= i <= end <= s@.len(),
            out@ == s@.subrange(p as int, i as int),
            forall|m: int| p <= m < i ==> s@[m] != 0u8,
        decreases end - i,
    {
        if i >= end {
            proof {
                lemma_cstr_unterminated(s@, p as int, i as int, end as int);
            }
            return None;
        }
        let b = s[i];
        if b == 0 {
            proof {
                lemma_cstr_terminated(s@, p as int, i as int, end as int);
            }
            return Some((out, i + 1));
        }
        out.push(b);
        proof {
            assert(out@ =~= s@.subrange(p as int, i + 1 as int));
        }
        i = i + 1;
    }
}

/// A scan that ran to `end` without a terminator is not a string.
proof fn lemma_cstr_unterminated(s: Seq<u8>, p: int, i: int, end: int)
    requires
        0 <= p <= i,
        i >= end,
        end <= s.len(),
        forall|m: int| p <= m < i ==> s[m] != 0u8,
    ensures
        spec_cstr(s, p, end) is None,
    decreases end - p,
{
    if 0 <= p && p < end && end <= s.len() {
        lemma_cstr_unterminated(s, p + 1, i, end);
    }
}

/// A scan that found the terminator at `i` yields the bytes before it.
proof fn lemma_cstr_terminated(s: Seq<u8>, p: int, i: int, end: int)
    requires
        0 <= p <= i < end,
        end <= s.len(),
        forall|m: int| p <= m < i ==> s[m] != 0u8,
        s[i] == 0u8,
    ensures
        spec_cstr(s, p, end) == Some((s.subrange(p, i), (i + 1) as int)),
    decreases i - p,
{
    if p == i {
        assert(s.subrange(p, i) =~= Seq::<u8>::empty());
    } else {
        lemma_cstr_terminated(s, p + 1, i, end);
        assert(seq![s[p]].add(s.subrange(p + 1, i)) =~= s.subrange(p, i));
    }
}

/// Skip the include-directories list: zero-terminated strings, ended by an
/// empty one; the result is the position after the list's terminator.
pub open spec fn spec_skip_dirs(s: Seq<u8>, p: int, end: int) -> Option<int>
    decreases end - p,
{
    if !(0 <= p && p < end && end <= s.len()) {
        None
    } else if s[p] == 0 {
        Some(p + 1)
    } else {
        match spec_cstr(s, p, end) {
            Some((t, q)) => if p < q && q <= end {
                spec_skip_dirs(s, q, end)
            } else {
                None
            },
            None => None,
        }
    }
}

/// Skip the include-directories list.
fn skip_dirs(s: &[u8], p: usize, end: usize) -> (r: Option<usize>)
    requires
        end <= s.len(),
    ensures
        match r {
            Some(q) => spec_skip_dirs(s@, p as int, end as int) == Some(q as int) && q <= end,
            None => spec_skip_dirs(s@, p as int, end as int) is None,
        },
{
    let mut i = p;
    loop
        invariant
            end <= s@.len(),
            spec_skip_dirs(s@, p as int, end as int) == spec_skip_dirs(s@, i as int, end as int),
        decreases end - i,
    {
        if i >= end {
            return None;
        }
        if s[i] == 0 {
            return Some(i + 1);
        }
        match read_cstr(s, i, end) {
            Some((t, q)) => {
                i = q;
            },
            None => {
                return None;
            },
        }
    }
}

/// One (line number, code address) row of a decoded line-number table.
#[derive(Clone, Copy, Debug, PartialEq, Eq, Structural)]
pub struct LineRow {
    /// The source line number.
    pub line: u64,
    /// The machine address of the row's code.
    pub address: u64,
}

/// Specification-level image of a line-program header.
pub struct HeaderSpec {
    pub version: u16,
    pub min_inst: u8,
    pub line_base: i8,
    pub line_range: u8,
    pub opcode_base: u8,
    pub std_lens: Seq<u8>,
    pub name: Seq<u8>,
    pub program_start: int,
    pub unit_end: int,
}

/// A decoded line-program header: the fields of the unit header that the
/// state machine needs, the unit's primary file name, and the bounds of the
/// program's opcode stream.
pub struct LineHeader {
    /// The line-table format version (2 through 4).
    pub version: u16,
    /// Machine-address units per address advance.
    pub minimum_instruction_length: u8,
    /// The smallest line advance a special opcode can encode.
    pub line_base: i8,
    /// The number of distinct line advances special opcodes encode.
    pub line_range: u8,
    /// The first special opcode value.
    pub opcode_base: u8,
    /// Operand counts for the standard opcodes, one per opcode from 1 up.
    pub std_opcode_lengths: Vec<u8>,
    /// The unit's primary file name, from the header's file-name table;
    /// empty when the table is empty.
    pub name: Vec<u8>,
    /// Where the opcode stream begins.
    pub program_start: usize,
    /// Where the unit ends (exclusive); the next unit starts here.
    pub unit_end: usize,
}

impl View for LineHeader {
    type V = HeaderSpec;

    open spec fn view(&self) -> HeaderSpec {
        HeaderSpec {
            version: self.version,
            min_inst: self.minimum_instruction_length,
            line_base: self.line_base,
            line_range: self.line_range,
            opcode_base: self.opcode_base,
            std_lens: self.std_opcode_lengths@,
            name: self.name@,
            program_start: self.program_start as int,
            unit_end: self.unit_end as int,
        }
    }
}

/// The position after the maximum-operations field: the field exists only
/// from version 4 on, and only the plain one-operation form is accepted.
pub open spec fn spec_maxops(s: Seq<u8>, p: int, ver: u16) -> Option<int> {
    if ver < 4 {
        Some(p)
    } else {
        match spec_u8_at(s, p) {
            Some((mo, q)) => if mo == 1 {
                Some(q)
            } else {
                None
            },
            None => None,
        }
    }
}

/// The grammar of one line-program unit header, 32-bit format, version 2
/// through 4, starting at `p`: the unit length (rejecting the reserved and
/// 64-bit initial-length values), the version, the header length locating
/// the opcode stream, the state-machine parameters, the standard opcode
/// lengths, the include directories, and the first file name.
pub open spec fn spec_header(s: Seq<u8>, p: int) -> Option<HeaderSpec> {
    match spec_u32_at(s, p) {
        None => None,
        Some((ulen, p4)) => if ulen >= 0xFFFF_FFF0 || p4 + ulen > s.len() {
            None
        } else {
            let unit_end = p4 + ulen;
            match spec_u16_at(s, p4) {
                None => None,
                Some((ver, p6)) => if p6 > unit_end || ver < 2 || ver > 4 {
                    None
                } else {
                    match spec_u32_at(s, p6) {
                        None => None,
                        Some((hlen, p10)) => if p10 + hlen > unit_end {
                            None
                        } else {
                            let program_start = p10 + hlen;
                            match spec_u8_at(s, p10) {
                                None => None,
                                Some((min, p11)) => if min == 0 {
                                    None
                                } else {
                                    match spec_maxops(s, p11, ver) {
                                        None => None,
                                        Some(p12) => match spec_u8_at(s, p12) {
                                            None => None,
                                            Some((stmt, p13)) => match spec_u8_at(s, p13) {
                                                None => None,
                                                Some((lb, p14)) => match spec_u8_at(s, p14) {
                                                    None => None,
                                                    Some((lr, p15)) => if lr == 0 {
                                                        None
                                                    } else {
                                                        match spec_u8_at(s, p15) {
                                                            None => None,
                                                            Some((ob, p16)) => if ob == 0 || p16
                                                                + (ob - 1) > unit_end {
                                                                None
                                                            } else {
                                                                spec_header_tail(
                                                                    s,
                                                                    HeaderSpec {
                                                                        version: ver,
                                                                        min_inst: min,
                                                                        line_base: lb as i8,
                                                                        line_range: lr,
                                                                        opcode_base: ob,
                                                                        std_lens: s.subrange(
                                                                            p16,
                                                                            p16 + (ob - 1),
                                                                        ),
                                                                        name: Seq::empty(),
                                                                        program_start,
                                                                        unit_end,
                                                                    },
                                                                    p16 + (ob - 1),
                                                                )
                                                            },
                                                        }
                                                    },
                                                },
                                            },
                                        },
                                    }
                                },
                            }
                        },
                    }
                },
            }
        },
    }
}

/// The tail of the header after the standard opcode lengths: the include
/// directories, then the name of the first file entry (empty when the file
/// table is empty).
pub open spec fn spec_header_tail(s: Seq<u8>, h: HeaderSpec, p: int) -> Option<HeaderSpec> {
    match spec_skip_dirs(s, p, h.unit_end) {
        None => None,
        Some(q) => if !(q < h.unit_end) {
            None
        } else if s[q] == 0 {
            Some(HeaderSpec { name: Seq::empty(), ..h })
        } else {
            match spec_cstr(s, q, h.unit_end) {
                Some((nm, r)) => Some(HeaderSpec { name: nm, ..h }),
                None => None,
            }
        },
    }
}

/// Decode one unit header at `p`.
fn parse_header(s: &[u8], p: usize) -> (r: Option<LineHeader>)
    ensures
        match r {
            Some(h) => spec_header(s@, p as int) == Some(h@) && h.unit_end <= s.len()
                && h.program_start <= h.unit_end && p + 4 <= h.unit_end
                && h.minimum_instruction_length != 0 && h.line_range != 0 && h.opcode_base >= 1
                && h.std_opcode_lengths@.len() == h.opcode_base - 1,
            None => spec_header(s@, p as int) is None,
        },
{
    let (ulen, p4) = match read_u32_at(s, p) {
        Some(x) => x,
        None => {
            return None;
        },
    };
    if ulen >= 0xFFFF_FFF0 || (ulen as usize) > s.len() - p4 {
        return None;
    }
    let unit_end = p4 + ulen as usize;
    let (ver, p6) = match read_u16_at(s, p4) {
        Some(x) => x,
        None => {
            return None;
        },
    };
    if p6 > unit_end || ver < 2 || ver > 4 {
        return None;
    }
    let (hlen, p10) = match read_u32_at(s, p6) {
        Some(x) => x,
        None => {
            return None;
        },
    };
    if p10 > unit_end || (hlen as usize) > unit_end - p10 {
        return None;
    }
    let program_start = p10 + hlen as usize;
    let (min, p11) = match read_u8_at(s, p10) {
        Some(x) => x,
        None => {
            return None;
        },
    };
    if min == 0 {
        return None;
    }
    let p12 = if ver >= 4 {
        match read_u8_at(s, p11) {
            Some((mo, q)) => {
                if mo != 1 {
                    return None;
                }
                q
            },
            None => {
                return None;
            },
        }
    } else {
        p11
    };
    let (_stmt, p13) = match read_u8_at(s, p12) {
        Some(x) => x,
        None => {
            return None;
        },
    };
    let (lb, p14) = match read_u8_at(s, p13) {
        Some(x) => x,
        None => {
            return None;
        },
    };
    let (lr, p15) = match read_u8_at(s, p14) {
        Some(x) => x,
        None => {
            return None;
        },
    };
    if lr == 0 {
        return None;
    }
    let (ob, p16) = match read_u8_at(s, p15) {
        Some(x) => x,
        None => {
            return None;
        },
    };
    if ob == 0 || p16 > unit_end || (ob as usize - 1) > unit_end - p16 {
        return None;
    }
    let mut std_lens: Vec<u8> = Vec::new();
    let mut m = p16;
    let p17 = p16 + (ob as usize - 1);
    proof {
        assert(std_lens@ =~= s@.subrange(p16 as int, p16 as int));
    }
    while m < p17
        invariant
            p16 <= m <= p17 <= unit_end <= s@.len(),
            std_lens@ == s@.subrange(p16 as int, m as int),
        decreases p17 - m,
    {
        std_lens.push(s[m]);
        proof {
            assert(std_lens@ =~= s@.subrange(p16 as int, m + 1 as int));
        }
        m = m + 1;
    }
    let q = match skip_dirs(s, p17, unit_end) {
        Some(q) => q,
        None => {
            return None;
        },
    };
    if !(q < unit_end) {
        return None;
    }
    let name: Vec<u8> = if s[q] == 0 {
        Vec::new()
    } else {
        match read_cstr(s, q, unit_end) {
            Some((nm, _)) => nm,
            None => {
                return None;
            },
        }
    };
    proof {
        if s@[q as int] == 0 {
            assert(name@ =~= Seq::<u8>::empty());
        }
    }
    Some(
        LineHeader {
            version: ver,
            minimum_instruction_length: min,
            line_base: #[verifier::truncate] (lb as i8),
            line_range: lr,
            opcode_base: ob,
            std_opcode_lengths: std_lens,
            name,
            program_start,
            unit_end,
        },
    )
}

/// Skip `n` unsigned LEB128 operands, staying before `end`.
pub open spec fn spec_skip_ulebs(s: Seq<u8>, p: int, end: int, n: int) -> Option<int>
    decreases n,
{
    if n <= 0 {
        if 0 <= p && p <= end {
            Some(p)
        } else {
            None
        }
    } else {
        match spec_uleb(s, p, 0, 0) {
            None => None,
            Some((x, q)) => if p < q && q <= end {
                spec_skip_ulebs(s, q, end, n - 1)
            } else {
                None
            },
        }
    }
}

/// Skip `n` unsigned LEB128 operands, staying before `end`.
fn skip_ulebs(s: &[u8], p: usize, end: usize, n: u8) -> (r: Option<usize>)
    requires
        p <= end <= s.len(),
    ensures
        match r {
            Some(q) => spec_skip_ulebs(s@, p as int, end as int, n as int) == Some(q as int) && p
                <= q <= end,
            None => spec_skip_ulebs(s@, p as int, end as int, n as int) is None,
        },
    decreases n,
{
    if n == 0 {
        return Some(p);
    }
    match read_uleb(s, p, 0, 0) {
        None => None,
        Some((x, q)) => {
            if q > end {
                return None;
            }
            skip_ulebs(s, q, end, n - 1)
        },
    }
}

/// The line-number program's state machine, from `p` to the unit's end: the
/// rows it emits, in order, or `None` when the opcode stream is malformed.
/// `addr` and `line` are the machine's address and line registers. A special
/// opcode advances both and emits a row; the standard opcodes advance the
/// registers, emit a row (`copy`), or are skipped by their declared operand
/// counts; the extended opcodes end a sequence (resetting the registers) or
/// set the address outright. Register overflow is malformed input.
pub open spec fn spec_run(s: Seq<u8>, h: HeaderSpec, p: int, addr: u64, line: u64) -> Option<
    Seq<LineRow>,
>
    decreases h.unit_end - p,
{
    let end = h.unit_end;
    if p == end {
        Some(Seq::empty())
    } else if !(0 <= p && p < end && end <= s.len()) {
        None
    } else {
        let op = s[p];
        if op >= h.opcode_base {
            let adj = (op - h.opcode_base) as int;
            let addr2 = addr + (adj / (h.line_range as int)) * (h.min_inst as int);
            let line2 = line + h.line_base + (adj % (h.line_range as int));
            if addr2 > u64::MAX || line2 < 0 || line2 > u64::MAX {
                None
            } else {
                match spec_run(s, h, p + 1, addr2 as u64, line2 as u64) {
                    Some(rows) => Some(
                        seq![LineRow { line: line2 as u64, address: addr2 as u64 }].add(rows),
                    ),
                    None => None,
                }
            }
        } else if op == 0 {
            match spec_uleb(s, p + 1, 0, 0) {
                None => None,
                Some((l, q)) => if !(p + 1 < q && q <= end) || l == 0 || l > end - q {
                    None
                } else {
                    let next = q + l;
                    let sub = s[q];
                    if sub == 1 {
                        if l != 1 {
                            None
                        } else {
                            spec_run(s, h, next, 0, 1)
                        }
                    } else if sub == 2 {
                        if l != 9 {
                            None
                        } else {
                            match spec_u64_at(s, q + 1) {
                                Some((a, x)) => spec_run(s, h, next, a, line),
                                None => None,
                            }
                        }
                    } else {
                        spec_run(s, h, next, addr, line)
                    }
                },
            }
        } else if op == 1 {
            match spec_run(s, h, p + 1, addr, line) {
                Some(rows) => Some(seq![LineRow { line, address: addr }].add(rows)),
                None => None,
            }
        } else if op == 2 {
            match spec_uleb(s, p + 1, 0, 0) {
                None => None,
                Some((a, q)) => if !(p + 1 < q && q <= end) {
                    None
                } else {
                    let addr2 = addr + a * h.min_inst;
                    if addr2 > u64::MAX {
                        None
                    } else {
                        spec_run(s, h, q, addr2 as u64, line)
                    }
                },
            }
        } else if op == 3 {
            match spec_sleb(s, p + 1, 0, 0) {
                None => None,
                Some((d, q)) => if !(p + 1 < q && q <= end) {
                    None
                } else {
                    let line2 = line + d;
                    if line2 < 0 || line2 > u64::MAX {
                        None
                    } else {
                        spec_run(s, h, q, addr, line2 as u64)
                    }
                },
            }
        } else if op == 4 || op == 5 || op == 12 {
            match spec_uleb(s, p + 1, 0, 0) {
                None => None,
                Some((x, q)) => if !(p + 1 < q && q <= end) {
                    None
                } else {
                    spec_run(s, h, q, addr, line)
                },
            }
        } else if op == 6 || op == 7 || op == 10 || op == 11 {
            spec_run(s, h, p + 1, addr, line)
        } else if op == 8 {
            let adj = (255 - h.opcode_base) as int;
            let addr2 = addr + (adj / (h.line_range as int)) * (h.min_inst as int);
            if addr2 > u64::MAX {
                None
            } else {
                spec_run(s, h, p + 1, addr2 as u64, line)
            }
        } else if op == 9 {
            match spec_u16_at(s, p + 1) {
                None => None,
                Some((d, q)) => if q > end {
                    None
                } else {
                    let addr2 = addr + d;
                    if addr2 > u64::MAX {
                        None
                    } else {
                        spec_run(s, h, q, addr2 as u64, line)
                    }
                },
            }
        } else {
            match spec_skip_ulebs(s, p + 1, end, h.std_lens[op - 1] as int) {
                None => None,
                Some(q) => if p < q && q <= end {
                    spec_run(s, h, q, addr, line)
                } else {
                    None
                },
            }
        }
    }
}

/// Run the line-number program of one unit and collect its rows.
fn run_program(s: &[u8], h: &LineHeader) -> (r: Option<Vec<LineRow>>)
    requires
        h.unit_end <= s.len(),
        h.program_start <= h.unit_end,
        h.line_range != 0,
        h.minimum_instruction_length != 0,
        h.opcode_base >= 1,
        h.std_opcode_lengths@.len() == h.opcode_base - 1,
    ensures
        match r {
            Some(rows) => spec_run(s@, h@, h.program_start as int, 0, 1) == Some(rows@),
            None => spec_run(s@, h@, h.program_start as int, 0, 1) is None,
        },
{
    let end = h.unit_end;
    let mut p = h.program_start;
    let mut addr: u64 = 0;
    let mut line: u64 = 1;
    let mut rows: Vec<LineRow> = Vec::new();
    proof {
        assert(rows@ =~= Seq::<LineRow>::empty());
    }
    while p < end
        invariant
            h.unit_end <= s@.len(),
            end == h.unit_end,
            h.line_range != 0,
            h.minimum_instruction_length != 0,
            h.opcode_base >= 1,
            h.std_opcode_lengths@.len() == h.opcode_base - 1,
            p <= end,
            spec_run(s@, h@, h.program_start as int, 0, 1) == (match spec_run(
                s@,
                h@,
                p as int,
                addr,
                line,
            ) {
                Some(t) => Some(rows@.add(t)),
                None => None::<Seq<LineRow>>,
            }),
        decreases end - p,
    {
        let ghost rows0 = rows@;
        let op = s[p];
        if op >= h.opcode_base {
            let adj = op - h.opcode_base;
            let units = (adj / h.line_range) as u64;
            proof {
                assert(units * (h.minimum_instruction_length as u64) <= 255 * 255)
                    by (nonlinear_arith)
                    requires
                        units <= 255,
                        h.minimum_instruction_length <= 255,
                ;
            }
            let delta = units * (h.minimum_instruction_length as u64);
            if addr > u64::MAX - delta {
                return None;
            }
            let addr2 = addr + delta;
            let rem = (adj % h.line_range) as u64;
            let lb = h.line_base;
            let line2: u64;
            if lb >= 0 {
                let inc = (lb as u64) + rem;
                if line > u64::MAX - inc {
                    return None;
                }
                line2 = line + inc;
            } else {
                let mag = (-(lb as i64)) as u64;
                if mag > rem {
                    let need = mag - rem;
                    if line < need {
                        return None;
                    }
                    line2 = line - need;
                } else {
                    let inc = rem - mag;
                    if line > u64::MAX - inc {
                        return None;
                    }
                    line2 = line + inc;
                }
            }
            let row = LineRow { line: line2, address: addr2 };
            rows.push(row);
            p = p + 1;
            addr = addr2;
            line = line2;
            proof {
                match spec_run(s@, h@, p as int, addr, line) {
                    Some(t) => {
                        assert(rows0.add(seq![row].add(t)) =~= rows@.add(t));
                    },
                    None => {},
                }
            }
        } else if op == 0 {
            let (l, q) = match read_uleb(s, p + 1, 0, 0) {
                Some(x) => x,
                None => {
                    return None;
                },
            };
            if q > end || l == 0 || l > (end - q) as u64 {
                return None;
            }
            let next = q + (l as usize);
            let sub = s[q];
            if sub == 1 {
                if l != 1 {
                    return None;
                }
                p = next;
                addr = 0;
                line = 1;
            } else if sub == 2 {
                if l != 9 {
                    return None;
                }
                let (a, _x) = match read_u64_at(s, q + 1) {
                    Some(x) => x,
                    None => {
                        return None;
                    },
                };
                p = next;
                addr = a;
            } else {
                p = next;
            }
        } else if op == 1 {
            let row = LineRow { line, address: addr };
            rows.push(row);
            p = p + 1;
            proof {
                match spec_run(s@, h@, p as int, addr, line) {
                    Some(t) => {
                        assert(rows0.add(seq![row].add(t)) =~= rows@.add(t));
                    },
                    None => {},
                }
            }
        } else if op == 2 {
            let (a, q) = match read_uleb(s, p + 1, 0, 0) {
                Some(x) => x,
                None => {
                    return None;
                },
            };
            if q > end {
                return None;
            }
            let min = h.minimum_instruction_length as u64;
            if a > u64::MAX / min {
                proof {
                    assert(a * min > u64::MAX) by (nonlinear_arith)
                        requires
                            a > u64::MAX / min,
                            min >= 1,
                            a <= u64::MAX,
                    ;
                }
                return None;
            }
            proof {
                assert(a * min <= u64::MAX) by (nonlinear_arith)
                    requires
                        a <= u64::MAX / min,
                        min >= 1,
                ;
            }
            let delta = a * min;
            if addr > u64::MAX - delta {
                return None;
            }
            addr = addr + delta;
            p = q;
        } else if op == 3 {
            let (d, q) = match read_sleb(s, p + 1, 0, 0) {
                Some(x) => x,
                None => {
                    return None;
                },
            };
            if q > end {
                return None;
            }
            if d >= 0 {
                let inc = d as u64;
                if line > u64::MAX - inc {
                    return None;
                }
                line = line + inc;
            } else {
                let mag = ((-(d + 1)) as u64) + 1;
                if line < mag {
                    return None;
                }
                line = line - mag;
            }
            p = q;
        } else if op == 4 || op == 5 || op == 12 {
            let (_x, q) = match read_uleb(s, p + 1, 0, 0) {
                Some(x) => x,
                None => {
                    return None;
                },
            };
            if q > end {
                return None;
            }
            p = q;
        } else if op == 6 || op == 7 || op == 10 || op == 11 {
            p = p + 1;
        } else if op == 8 {
            let adj = 255 - h.opcode_base;
            let units = (adj / h.line_range) as u64;
            proof {
                assert(units * (h.minimum_instruction_length as u64) <= 255 * 255)
                    by (nonlinear_arith)
                    requires
                        units <= 255,
                        h.minimum_instruction_length <= 255,
                ;
            }
            let delta = units * (h.minimum_instruction_length as u64);
            if addr > u64::MAX - delta {
                return None;
            }
            addr = addr + delta;
            p = p + 1;
        } else if op == 9 {
            let (d, q) = match read_u16_at(s, p + 1) {
                Some(x) => x,
                None => {
                    return None;
                },
            };
            if q > end {
                return None;
            }
            if addr > u64::MAX - (d as u64) {
                return None;
            }
            addr = addr + (d as u64);
            p = q;
        } else {
            let n = h.std_opcode_lengths[(op - 1) as usize];
            let q = match skip_ulebs(s, p + 1, end, n) {
                Some(q) => q,
                None => {
                    return None;
                },
            };
            p = q;
        }
    }
    proof {
        assert(rows@.add(Seq::<LineRow>::empty()) =~= rows@);
    }
    Some(rows)
}

/// Specification-level image of a compilation unit's line table.
pub struct UnitSpec {
    pub name: Seq<u8>,
    pub rows: Seq<LineRow>,
}

/// One compilation unit's worth of line information: the unit's recorded
/// source name and its (line, address) rows in file order.
pub struct CompUnit {
    /// The unit's recorded source name.
    pub name: Vec<u8>,
    /// The rows of the unit's line table, in the order the program emitted
    /// them.
    pub rows: Vec<LineRow>,
}

impl View for CompUnit {
    type V = UnitSpec;

    open spec fn view(&self) -> UnitSpec {
        UnitSpec { name: self.name@, rows: self.rows@ }
    }
}

/// An immutable index over a target's decoded line-number programs, one
/// entry per compilation unit. A target without embedded debug information
/// has an index with zero units.
pub struct DebugInfoIndex {
    /// The decoded units, in section order.
    pub units: Vec<CompUnit>,
}

impl View for DebugInfoIndex {
    type V = Seq<UnitSpec>;

    open spec fn view(&self) -> Seq<UnitSpec> {
        self.units@.map_values(|u: CompUnit| u@)
    }
}

/// Malformed embedded debug information.
#[derive(Clone, Copy, Debug, PartialEq, Eq, Structural)]
pub struct DebugInfoError;

/// One compilation unit decoded at `p`: its header, then its line-number
/// program run to the unit's end.
pub open spec fn spec_unit(s: Seq<u8>, p: int) -> Option<(UnitSpec, int)> {
    match spec_header(s, p) {
        None => None,
        Some(h) => match spec_run(s, h, h.program_start, 0, 1) {
            None => None,
            Some(rows) => Some((UnitSpec { name: h.name, rows }, h.unit_end)),
        },
    }
}

/// All compilation units from `p` to the end of the section.
pub open spec fn spec_units(s: Seq<u8>, p: int) -> Option<Seq<UnitSpec>>
    decreases s.len() - p,
{
    if !(0 <= p <= s.len()) {
        None
    } else if p == s.len() {
        Some(Seq::empty())
    } else {
        match spec_unit(s, p) {
            None => None,
            Some((u, q)) => if p < q && q <= s.len() {
                match spec_units(s, q) {
                    Some(rest) => Some(seq![u].add(rest)),
                    None => None,
                }
            } else {
                None
            },
        }
    }
}

/// Decode one compilation unit at `p`.
fn parse_unit(s: &[u8], p: usize) -> (r: Option<(CompUnit, usize)>)
    ensures
        match r {
            Some((u, q)) => spec_unit(s@, p as int) == Some((u@, q as int)) && p < q <= s.len(),
            None => spec_unit(s@, p as int) is None,
        },
{
    let h = match parse_header(s, p) {
        Some(h) => h,
        None => {
            return None;
        },
    };
    let rows = match run_program(s, &h) {
        Some(rows) => rows,
        None => {
            return None;
        },
    };
    let unit_end = h.unit_end;
    Some((CompUnit { name: h.name, rows }, unit_end))
}

/// Decode the line-number section: every compilation unit in order. Empty
/// input yields an index with zero units; malformed input is an error.
pub fn load_dwarf_data(s: &[u8]) -> (r: Result<DebugInfoIndex, DebugInfoError>)
    ensures
        match r {
            Ok(idx) => spec_units(s@, 0) == Some(idx@),
            Err(_) => spec_units(s@, 0) is None,
        },
{
    let mut units: Vec<CompUnit> = Vec::new();
    let mut p: usize = 0;
    proof {
        let f = |u: CompUnit| u@;
        assert(units@.map_values(f) =~= Seq::<UnitSpec>::empty());
    }
    while p < s.len()
        invariant
            p <= s.len(),
            spec_units(s@, 0) == (match spec_units(s@, p as int) {
                Some(rest) => Some(units@.map_values(|u: CompUnit| u@).add(rest)),
                None => None::<Seq<UnitSpec>>,
            }),
        decreases s.len() - p,
    {
        let ghost units0 = units@;
        let (u, q) = match parse_unit(s, p) {
            Some(x) => x,
            None => {
                return Err(DebugInfoError);
            },
        };
        units.push(u);
        proof {
            let f = |u: CompUnit| u@;
            match spec_units(s@, q as int) {
                Some(rest) => {
                    assert(units@.map_values(f) =~= units0.map_values(f).push(units@[
                        units@.len() - 1]@));
                    assert(units0.map_values(f).add(seq![units@[units@.len() - 1]@].add(rest))
                        =~= units@.map_values(f).add(rest));
                },
                None => {},
            }
        }
        p = q;
    }
    proof {
        assert(units@.map_values(|u: CompUnit| u@).add(Seq::<UnitSpec>::empty()) =~= units@
            .map_values(|u: CompUnit| u@));
    }
    Ok(DebugInfoIndex { units })
}

/// The first row of `rows` whose line number is exactly `line`, if any.
pub open spec fn spec_first_row(rows: Seq<LineRow>, line: u64) -> Option<u64>
    decreases rows.len(),
{
    if rows.len() == 0 {
        None
    } else if rows[0].line == line {
        Some(rows[0].address)
    } else {
        spec_first_row(rows.drop_first(), line)
    }
}

/// The address of the source location: scan the units in order for one whose
/// recorded name equals `file` exactly (no path normalization), and within a
/// matching unit scan the rows in file order for the first whose line number
/// equals `line` exactly; no nearest-line fallback.
pub open spec fn spec_resolve(units: Seq<UnitSpec>, file: Seq<u8>, line: u64) -> Option<u64>
    decreases units.len(),
{
    if units.len() == 0 {
        None
    } else {
        let found = if units[0].name == file {
            spec_first_row(units[0].rows, line)
        } else {
            None
        };
        match found {
            Some(a) => Some(a),
            None => spec_resolve(units.drop_first(), file, line),
        }
    }
}

/// Exact byte-string equality.
fn bytes_eq(a: &[u8], b: &[u8]) -> (r: bool)
    ensures
        r == (a@ == b@),
{
    if a.len() != b.len() {
        return false;
    }
    let mut i: usize = 0;
    while i < a.len()
        invariant
            i <= a.len(),
            a@.len() == b@.len(),
            forall|m: int| 0 <= m < i ==> a@[m] == b@[m],
        decreases a.len() - i,
    {
        if a[i] != b[i] {
            return false;
        }
        i = i + 1;
    }
    proof {
        assert(a@ =~= b@);
    }
    true
}

/// Map a source coordinate to the machine address of the first exactly
/// matching line-table row, or `None` when no unit or no row matches.
pub fn src_line_to_addr(index: &DebugInfoIndex, filename: &[u8], line_num: u64) -> (r: Option<u64>)
    ensures
        r == spec_resolve(index@, filename@, line_num),
{
    let mut i: usize = 0;
    proof {
        assert(index@.skip(0) =~= index@);
    }
    while i < index.units.len()
        invariant
            i <= index.units.len(),
            spec_resolve(index@, filename@, line_num) == spec_resolve(
                index@.skip(i as int),
                filename@,
                line_num,
            ),
        decreases index.units.len() - i,
    {
        proof {
            assert(index@[i as int] == index.units@[i as int]@);
            assert(index@.skip(i as int)[0] == index@[i as int]);
            assert(index@.skip(i as int).drop_first() =~= index@.skip(i + 1 as int));
        }
        let u = &index.units[i];
        if bytes_eq(u.name.as_slice(), filename) {
            let mut j: usize = 0;
            proof {
                assert(u.rows@.skip(0) =~= u.rows@);
            }
            while j < u.rows.len()
                invariant
                    j <= u.rows.len(),
                    i < index.units@.len(),
                    index@.len() == index.units@.len(),
                    index@[i as int].name == filename@,
                    index@[i as int].rows == u.rows@,
                    spec_resolve(index@, filename@, line_num) == spec_resolve(
                        index@.skip(i as int),
                        filename@,
                        line_num,
                    ),
                    spec_first_row(u.rows@, line_num) == spec_first_row(
                        u.rows@.skip(j as int),
                        line_num,
                    ),
                decreases u.rows.len() - j,
            {
                proof {
                    assert(u.rows@.skip(j as int)[0] == u.rows@[j as int]);
                    assert(u.rows@.skip(j as int).drop_first() =~= u.rows@.skip(j + 1 as int));
                }
                if u.rows[j].line == line_num {
                    proof {
                        assert(spec_first_row(u.rows@.skip(j as int), line_num) == Some(
                            u.rows@[j as int].address,
                        ));
                        assert(index@.skip(i as int)[0] == index@[i as int]);
                        assert(spec_resolve(index@.skip(i as int), filename@, line_num) == Some(
                            u.rows@[j as int].address,
                        ));
                    }
                    return Some(u.rows[j].address);
                }
                j = j + 1;
            }
            proof {
                assert(u.rows@.skip(j as int) =~= Seq::<LineRow>::empty());
            }
        }
        i = i + 1;
    }
    proof {
        assert(index@.skip(i as int) =~= Seq::<UnitSpec>::empty());
    }
    None
}

} // verus!
