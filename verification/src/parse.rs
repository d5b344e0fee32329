//! The commit-trace parser.
//!
//! One trace line describes one cycle: two tokens separated by a single
//! space, one per issue slot. A token is either `(bubble)` or
//! `[hex_pc]<write_spec>`, where `write_spec` is `no_write` or
//! `write:index=hex_value`; the program counter and the written value are
//! `0x`-prefixed hexadecimal and the register index is decimal. A line that
//! does not match this grammar is a fatal format error.

use vstd::prelude::*;
use crate::port::Port;

verus! {

/// A malformed trace line; always fatal, because the instrumentation that
/// produces the trace is assumed broken.
#[derive(Debug, Copy, Clone, PartialEq, Eq, Structural)]
pub struct TraceFormatError;

pub const LBRACKET: u8 = 91;

pub const RBRACKET: u8 = 93;

pub const LANGLE: u8 = 60;

pub const RANGLE: u8 = 62;

pub const SPACE: u8 = 32;

pub const EQUALS: u8 = 61;

/// A decimal digit.
pub open spec fn is_dec_digit(b: u8) -> bool {
    48 <= b <= 57
}

/// A hexadecimal digit, either case.
pub open spec fn is_hex_digit(b: u8) -> bool {
    is_dec_digit(b) || (97 <= b <= 102) || (65 <= b <= 70)
}

/// The numeric value of a digit byte.
pub open spec fn digit_val(b: u8) -> nat {
    if is_dec_digit(b) {
        (b - 48) as nat
    } else if 97 <= b <= 102 {
        (b - 87) as nat
    } else if 65 <= b <= 70 {
        (b - 55) as nat
    } else {
        0
    }
}

/// A digit of the given base; only bases 10 and 16 occur in the grammar.
pub open spec fn is_digit(b: u8, base: nat) -> bool {
    if base == 16 {
        is_hex_digit(b)
    } else {
        is_dec_digit(b)
    }
}

/// Every byte of `s` is a digit of the given base.
pub open spec fn all_digits(s: Seq<u8>, base: nat) -> bool {
    forall|i: int| 0 <= i < s.len() ==> is_digit(#[trigger] s[i], base)
}

/// The numeric value of a digit string, most significant digit first.
pub open spec fn num_val(s: Seq<u8>, base: nat) -> nat
    decreases s.len(),
{
    if s.len() == 0 {
        0
    } else {
        (base * num_val(s.drop_last(), base) + digit_val(s.last())) as nat
    }
}

/// A digit string's value only grows as more digits follow it.
proof fn lemma_num_val_prefix(s: Seq<u8>, base: nat, i: int)
    requires
        base >= 1,
        0 <= i <= s.len(),
    ensures
        num_val(s.subrange(0, i), base) <= num_val(s, base),
    decreases s.len(),
{
    if i == s.len() {
        assert(s.subrange(0, i) =~= s);
    } else {
        let t = s.drop_last();
        lemma_num_val_prefix(t, base, i);
        assert(t.subrange(0, i) =~= s.subrange(0, i));
        assert(base * num_val(t, base) >= num_val(t, base)) by (nonlinear_arith)
            requires
                base >= 1,
                num_val(t, base) >= 0,
        ;
    }
}

/// The index of the first occurrence of `b` in `s`, or -1 if it never
/// occurs.
pub open spec fn find_byte(s: Seq<u8>, b: u8) -> int
    decreases s.len(),
{
    if s.len() == 0 {
        -1
    } else if s[0] == b {
        0
    } else if find_byte(s.skip(1), b) < 0 {
        -1
    } else {
        find_byte(s.skip(1), b) + 1
    }
}

/// What `find_byte` returns really is the first occurrence.
proof fn lemma_find_byte(s: Seq<u8>, b: u8)
    ensures
        find_byte(s, b) >= 0 ==> 0 <= find_byte(s, b) < s.len() && s[find_byte(s, b)] == b
            && (forall|j: int| 0 <= j < find_byte(s, b) ==> s[j] != b),
        find_byte(s, b) < 0 ==> forall|j: int| 0 <= j < s.len() ==> s[j] != b,
    decreases s.len(),
{
    if s.len() > 0 && s[0] != b {
        let t = s.skip(1);
        lemma_find_byte(t, b);
        if find_byte(t, b) >= 0 {
            let ft = find_byte(t, b);
            assert(s[ft + 1] == t[ft]);
            assert forall|j: int| 0 <= j < find_byte(s, b) implies s[j] != b by {
                if j > 0 {
                    assert(t[j - 1] == s[j]);
                }
            }
        } else {
            assert forall|j: int| 0 <= j < s.len() implies s[j] != b by {
                if j > 0 {
                    assert(t[j - 1] == s[j]);
                }
            }
        }
    }
}

/// A valid `0x`-prefixed hexadecimal literal whose value fits in 32 bits.
pub open spec fn valid_hex(s: Seq<u8>) -> bool {
    &&& s.len() > 2
    &&& s[0] == 48
    &&& s[1] == 120
    &&& all_digits(s.subrange(2, s.len() as int), 16)
    &&& num_val(s.subrange(2, s.len() as int), 16) <= u32::MAX
}

/// What decoding a hexadecimal literal yields: its value, or nothing when
/// it is not a valid literal.
pub open spec fn spec_decode_hex(s: Seq<u8>) -> Option<u32> {
    if valid_hex(s) {
        Some(num_val(s.subrange(2, s.len() as int), 16) as u32)
    } else {
        None
    }
}

/// A valid decimal register index: all digits, value at most 255.
pub open spec fn valid_reg_index(s: Seq<u8>) -> bool {
    &&& s.len() >= 1
    &&& all_digits(s, 10)
    &&& num_val(s, 10) <= 255
}

/// What decoding a register index yields.
pub open spec fn spec_decode_reg_index(s: Seq<u8>) -> Option<u8> {
    if valid_reg_index(s) {
        Some(num_val(s, 10) as u8)
    } else {
        None
    }
}

/// The byte string `no_write`.
pub open spec fn no_write_seq() -> Seq<u8> {
    seq![110u8, 111u8, 95u8, 119u8, 114u8, 105u8, 116u8, 101u8]
}

/// The byte string `write:`.
pub open spec fn write_prefix_seq() -> Seq<u8> {
    seq![119u8, 114u8, 105u8, 116u8, 101u8, 58u8]
}

/// The byte string `(bubble)`.
pub open spec fn bubble_seq() -> Seq<u8> {
    seq![40u8, 98u8, 117u8, 98u8, 98u8, 108u8, 101u8, 41u8]
}

/// What decoding a write specification yields: `None` for a malformed one,
/// `Some(None)` for `no_write`, and `Some(Some((index, value)))` for a
/// well-formed `write:index=hex_value`.
pub open spec fn spec_decode_reg_write(s: Seq<u8>) -> Option<Option<(u8, u32)>> {
    if s == no_write_seq() {
        Some(None)
    } else if s.len() >= 6 && s.subrange(0, 6) == write_prefix_seq() {
        let rest = s.subrange(6, s.len() as int);
        let j = find_byte(rest, EQUALS);
        if j < 0 {
            None
        } else {
            match (
                spec_decode_reg_index(rest.subrange(0, j)),
                spec_decode_hex(rest.subrange(j + 1, rest.len() as int)),
            ) {
                (Some(idx), Some(val)) => Some(Some((idx, val))),
                _ => None,
            }
        }
    } else {
        None
    }
}

/// What parsing one token yields: `None` for a malformed token,
/// `Some(None)` for a bubble, and `Some(Some(port))` for a commit record.
pub open spec fn spec_parse_token(s: Seq<u8>) -> Option<Option<Port>> {
    if s == bubble_seq() {
        Some(None)
    } else if s.len() < 2 || s[0] != LBRACKET || s[s.len() - 1] != RANGLE {
        None
    } else {
        let j = find_byte(s, RBRACKET);
        if j < 0 || j + 2 > s.len() - 1 || s[j + 1] != LANGLE {
            None
        } else {
            match (
                spec_decode_hex(s.subrange(1, j)),
                spec_decode_reg_write(s.subrange(j + 2, s.len() - 1)),
            ) {
                (Some(pc), Some(rw)) => Some(Some(Port { pc, reg_write: rw })),
                _ => None,
            }
        }
    }
}

/// What parsing one line yields: the two slots' tokens around the single
/// separating space, or nothing when the line does not match the grammar.
pub open spec fn spec_parse_line(s: Seq<u8>) -> Option<(Option<Port>, Option<Port>)> {
    let k = find_byte(s, SPACE);
    if k < 0 {
        None
    } else {
        match (
            spec_parse_token(s.subrange(0, k)),
            spec_parse_token(s.subrange(k + 1, s.len() as int)),
        ) {
            (Some(a), Some(b)) => Some((a, b)),
            _ => None,
        }
    }
}

fn is_hex_digit_x(b: u8) -> (r: bool)
    ensures
        r == is_hex_digit(b),
{
    (48 <= b && b <= 57) || (97 <= b && b <= 102) || (65 <= b && b <= 70)
}

fn hex_digit_val_x(b: u8) -> (r: u8)
    requires
        is_hex_digit(b),
    ensures
        r as nat == digit_val(b),
        r < 16,
{
    if 48 <= b && b <= 57 {
        b - 48
    } else if 97 <= b && b <= 102 {
        b - 87
    } else {
        b - 55
    }
}

/// The first occurrence of `b` in `s`, as `find_byte` describes it.
fn find_byte_x(s: &[u8], b: u8) -> (r: Option<usize>)
    ensures
        match r {
            Some(i) => find_byte(s@, b) == i && i < s@.len() && s@[i as int] == b && (forall|
                j: int,
            | 0 <= j < i ==> s@[j] != b),
            None => find_byte(s@, b) < 0,
        },
{
    let n = s.len();
    let mut i: usize = 0;
    while i < n
        invariant
            i <= n,
            n == s@.len(),
            forall|j: int| 0 <= j < i ==> s@[j] != b,
        decreases n - i,
    {
        if s[i] == b {
            proof {
                lemma_find_byte(s@, b);
            }
            return Some(i);
        }
        i = i + 1;
    }
    proof {
        lemma_find_byte(s@, b);
    }
    None
}

/// Decode a `0x`-prefixed hexadecimal literal into a 32-bit value.
pub fn decode_hex(x: &[u8]) -> (r: Option<u32>)
    ensures
        r == spec_decode_hex(x@),
{
    let n = x.len();
    if n < 3 {
        return None;
    }
    if !(x[0] == 48 && x[1] == 120) {
        return None;
    }
    let ghost digits = x@.subrange(2, n as int);
    let mut i: usize = 2;
    while i < n
        invariant
            2 <= i <= n,
            n == x@.len(),
            forall|j: int| 2 <= j < i ==> is_hex_digit(#[trigger] x@[j]),
        decreases n - i,
    {
        if !is_hex_digit_x(x[i]) {
            proof {
                assert(x@.subrange(2, n as int)[i - 2] == x@[i as int]);
                assert(!all_digits(x@.subrange(2, n as int), 16));
            }
            return None;
        }
        i = i + 1;
    }
    proof {
        assert forall|k: int| 0 <= k < digits.len() implies is_digit(#[trigger] digits[k], 16) by {
            assert(digits[k] == x@[k + 2]);
        }
    }
    let mut v: u64 = 0;
    let mut p: usize = 2;
    while p < n
        invariant
            2 <= p <= n,
            n == x@.len(),
            digits == x@.subrange(2, n as int),
            all_digits(digits, 16),
            forall|j: int| 2 <= j < n ==> is_hex_digit(#[trigger] x@[j]),
            v as nat == num_val(x@.subrange(2, p as int), 16),
            v <= u32::MAX,
        decreases n - p,
    {
        let d = hex_digit_val_x(x[p]);
        let v2: u64 = v * 16 + d as u64;
        proof {
            assert(x@.subrange(2, p + 1).drop_last() =~= x@.subrange(2, p as int));
            assert(x@.subrange(2, p + 1).last() == x@[p as int]);
        }
        if v2 > u32::MAX as u64 {
            proof {
                lemma_num_val_prefix(digits, 16, p + 1 - 2);
                assert(digits.subrange(0, p + 1 - 2) =~= x@.subrange(2, p + 1));
            }
            return None;
        }
        v = v2;
        p = p + 1;
    }
    proof {
        assert(x@.subrange(2, p as int) =~= digits);
    }
    Some(v as u32)
}

/// Decode a decimal register index, at most 255.
fn decode_reg_index(x: &[u8]) -> (r: Option<u8>)
    ensures
        r == spec_decode_reg_index(x@),
{
    let n = x.len();
    if n == 0 {
        return None;
    }
    let mut i: usize = 0;
    while i < n
        invariant
            i <= n,
            n == x@.len(),
            forall|j: int| 0 <= j < i ==> is_dec_digit(#[trigger] x@[j]),
        decreases n - i,
    {
        if !(48 <= x[i] && x[i] <= 57) {
            proof {
                assert(!is_digit(x@[i as int], 10));
            }
            return None;
        }
        i = i + 1;
    }
    let mut v: u32 = 0;
    let mut p: usize = 0;
    while p < n
        invariant
            p <= n,
            n == x@.len(),
            all_digits(x@, 10),
            v as nat == num_val(x@.subrange(0, p as int), 10),
            v <= 255,
        decreases n - p,
    {
        let d = x[p] - 48;
        let v2: u32 = v * 10 + d as u32;
        proof {
            assert(x@.subrange(0, p + 1).drop_last() =~= x@.subrange(0, p as int));
            assert(x@.subrange(0, p + 1).last() == x@[p as int]);
        }
        if v2 > 255 {
            proof {
                lemma_num_val_prefix(x@, 10, p + 1);
            }
            return None;
        }
        v = v2;
        p = p + 1;
    }
    proof {
        assert(x@.subrange(0, p as int) =~= x@);
    }
    Some(v as u8)
}

/// Decode a write specification: `no_write`, or `write:index=hex_value`.
pub fn decode_reg_write(x: &[u8]) -> (r: Result<Option<(u8, u32)>, TraceFormatError>)
    ensures
        match r {
            Ok(w) => spec_decode_reg_write(x@) == Some(w),
            Err(_) => spec_decode_reg_write(x@) is None,
        },
{
    let n = x.len();
    if n == 8 && x[0] == 110 && x[1] == 111 && x[2] == 95 && x[3] == 119 && x[4] == 114 && x[5]
        == 105 && x[6] == 116 && x[7] == 101 {
        proof {
            assert(x@ =~= no_write_seq());
        }
        return Ok(None);
    }
    proof {
        assert(x@ != no_write_seq());
    }
    if !(n >= 6 && x[0] == 119 && x[1] == 114 && x[2] == 105 && x[3] == 116 && x[4] == 101 && x[5]
        == 58) {
        proof {
            if x@.len() >= 6 {
                assert(x@.subrange(0, 6) != write_prefix_seq());
            }
        }
        return Err(TraceFormatError);
    }
    proof {
        assert(x@.subrange(0, 6) =~= write_prefix_seq());
    }
    let rest = &x[6..n];
    match find_byte_x(rest, EQUALS) {
        None => Err(TraceFormatError),
        Some(j) => {
            let idx = decode_reg_index(&rest[0..j]);
            let val = decode_hex(&rest[j + 1..rest.len()]);
            match (idx, val) {
                (Some(i), Some(v)) => Ok(Some((i, v))),
                _ => Err(TraceFormatError),
            }
        },
    }
}

/// Parse one token: a bubble or one commit record.
pub fn parse_commit_port(s: &[u8]) -> (r: Result<Option<Port>, TraceFormatError>)
    ensures
        match r {
            Ok(p) => spec_parse_token(s@) == Some(p),
            Err(_) => spec_parse_token(s@) is None,
        },
{
    let n = s.len();
    if n == 8 && s[0] == 40 && s[1] == 98 && s[2] == 117 && s[3] == 98 && s[4] == 98 && s[5] == 108
        && s[6] == 101 && s[7] == 41 {
        proof {
            assert(s@ =~= bubble_seq());
        }
        return Ok(None);
    }
    proof {
        assert(s@ != bubble_seq());
    }
    if n < 2 || s[0] != LBRACKET || s[n - 1] != RANGLE {
        return Err(TraceFormatError);
    }
    let j = match find_byte_x(s, RBRACKET) {
        None => {
            return Err(TraceFormatError);
        },
        Some(j) => j,
    };
    if !(j + 2 <= n - 1) {
        return Err(TraceFormatError);
    }
    if s[j + 1] != LANGLE {
        return Err(TraceFormatError);
    }
    let pc = decode_hex(&s[1..j]);
    let rw = decode_reg_write(&s[j + 2..n - 1]);
    match (pc, rw) {
        (Some(pc), Ok(rw)) => Ok(Some(Port { pc, reg_write: rw })),
        _ => Err(TraceFormatError),
    }
}

/// Parse one line of the trace into its two issue slots, in order.
pub fn parse_line(s: &[u8]) -> (r: Result<(Option<Port>, Option<Port>), TraceFormatError>)
    ensures
        match r {
            Ok(ports) => spec_parse_line(s@) == Some(ports),
            Err(_) => spec_parse_line(s@) is None,
        },
{
    let n = s.len();
    let k = match find_byte_x(s, SPACE) {
        None => {
            return Err(TraceFormatError);
        },
        Some(k) => k,
    };
    let first = parse_commit_port(&s[0..k]);
    let second = parse_commit_port(&s[k + 1..n]);
    match (first, second) {
        (Ok(a), Ok(b)) => Ok((a, b)),
        _ => Err(TraceFormatError),
    }
}

} // verus!
