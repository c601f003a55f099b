//! Decoding of provider responses: a JSON reader for the success and
//! failure envelopes.  Every executable function mirrors a specification
//! function exactly, so what a response means is pinned at the
//! specification level.
//!
//! The reader accepts fields in any order, skips unknown fields, and
//! rejects what the wire format forbids (leading zeros, bare control
//! bytes in strings, malformed escapes).

use vstd::prelude::*;

use crate::cf_base::ApiError;
use crate::cf_base::ApiErrorV;
use crate::cf_base::ApiErrors;
use crate::cf_base::ApiErrorsV;
use crate::cf_base::ApiSuccess;
use crate::cf_base::ApiSuccessV;
use crate::cf_base::DnsContent;
use crate::cf_base::DnsContentV;
use crate::cf_base::DnsRecord;
use crate::cf_base::DnsRecordV;
use crate::cf_base::Ipv4Addr;
use crate::text::ascii_of;
use crate::text::bytes_eq;
use crate::text::dec_val;
use crate::text::is_digit;
use crate::text::lit_bytes;
use crate::text::parse_u32_digits;

verus! {

/// Whether a byte is JSON whitespace.
pub open spec fn is_ws(b: u8) -> bool {
    b == 32 || b == 9 || b == 10 || b == 13
}

/// The first index at or after `i` holding no whitespace.
pub open spec fn spec_ws(s: Seq<u8>, i: int) -> int
    decreases s.len() - i,
{
    if 0 <= i < s.len() && is_ws(s[i]) {
        spec_ws(s, i + 1)
    } else {
        i
    }
}

/// Skip whitespace.
pub fn skip_ws(s: &[u8], i: usize) -> (j: usize)
    requires
        i <= s.len(),
    ensures
        j == spec_ws(s@, i as int),
        i <= j <= s.len(),
{
    let mut k: usize = i;
    while k < s.len() && (s[k] == 32 || s[k] == 9 || s[k] == 10 || s[k] == 13)
        invariant
            i <= k <= s.len(),
            spec_ws(s@, i as int) == spec_ws(s@, k as int),
        decreases s.len() - k,
    {
        k = k + 1;
    }
    k
}

/// The end of the decimal-digit run starting at `i`.
pub open spec fn spec_num_end(s: Seq<u8>, i: int) -> int
    decreases s.len() - i,
{
    if 0 <= i < s.len() && is_digit(s[i]) {
        spec_num_end(s, i + 1)
    } else {
        i
    }
}

/// Find the end of a digit run.
pub fn digits_end(s: &[u8], i: usize) -> (j: usize)
    requires
        i <= s.len(),
    ensures
        j == spec_num_end(s@, i as int),
        i <= j <= s.len(),
        forall|k: int| i <= k < j ==> is_digit(#[trigger] s@[k]),
        j < s.len() ==> !is_digit(s@[j as int]),
    decreases s.len() - i,
{
    let mut k: usize = i;
    while k < s.len() && s[k] >= 48 && s[k] <= 57
        invariant
            i <= k <= s.len(),
            spec_num_end(s@, i as int) == spec_num_end(s@, k as int),
            forall|m: int| i <= m < k ==> is_digit(#[trigger] s@[m]),
        decreases s.len() - k,
    {
        k = k + 1;
    }
    k
}

/// Whether a byte is a hexadecimal digit.
pub open spec fn is_hex(b: u8) -> bool {
    48 <= b <= 57 || 97 <= b <= 102 || 65 <= b <= 70
}

/// The value of a hexadecimal digit.
pub open spec fn hex_val(b: u8) -> nat {
    if 48 <= b <= 57 {
        (b - 48) as nat
    } else if 97 <= b <= 102 {
        (b - 87) as nat
    } else if 65 <= b <= 70 {
        (b - 55) as nat
    } else {
        0
    }
}

/// The UTF-8 encoding of a scalar value below 0x10000.
pub open spec fn utf8_of(v: nat) -> Seq<u8> {
    if v < 0x80 {
        seq![v as u8]
    } else if v < 0x800 {
        seq![(192 + v / 64) as u8, (128 + v % 64) as u8]
    } else {
        seq![(224 + v / 4096) as u8, (128 + (v / 64) % 64) as u8, (128 + v % 64) as u8]
    }
}

/// Read a JSON string's content from just after the opening quote,
/// unescaping as it goes; `acc` carries what was read so far.  Returns
/// the content and the index just after the closing quote.  Bare control
/// bytes, malformed escapes and surrogate code points are refused.
pub open spec fn spec_jstr(s: Seq<u8>, i: int, acc: Seq<u8>) -> Option<(Seq<u8>, int)>
    decreases s.len() - i,
{
    if i < 0 || i >= s.len() {
        Option::None
    } else if s[i] == 34 {
        Option::Some((acc, i + 1))
    } else if s[i] == 92 {
        if i + 1 >= s.len() {
            Option::None
        } else {
            let e = s[i + 1];
            if e == 34 || e == 92 || e == 47 {
                spec_jstr(s, i + 2, acc.push(e))
            } else if e == 98 {
                spec_jstr(s, i + 2, acc.push(8))
            } else if e == 102 {
                spec_jstr(s, i + 2, acc.push(12))
            } else if e == 110 {
                spec_jstr(s, i + 2, acc.push(10))
            } else if e == 114 {
                spec_jstr(s, i + 2, acc.push(13))
            } else if e == 116 {
                spec_jstr(s, i + 2, acc.push(9))
            } else if e == 117 {
                if i + 5 >= s.len() {
                    Option::None
                } else if !(is_hex(s[i + 2]) && is_hex(s[i + 3]) && is_hex(s[i + 4]) && is_hex(
                    s[i + 5],
                )) {
                    Option::None
                } else {
                    let v = hex_val(s[i + 2]) * 4096 + hex_val(s[i + 3]) * 256 + hex_val(s[i + 4])
                        * 16 + hex_val(s[i + 5]);
                    if 0xD800 <= v < 0xE000 {
                        Option::None
                    } else {
                        spec_jstr(s, i + 6, acc + utf8_of(v))
                    }
                }
            } else {
                Option::None
            }
        }
    } else if s[i] < 32 {
        Option::None
    } else {
        spec_jstr(s, i + 1, acc.push(s[i]))
    }
}

/// Read a JSON string's content, from just after the opening quote.
pub fn parse_jstr(s: &[u8], i: usize) -> (r: Option<(Vec<u8>, usize)>)
    requires
        i <= s.len(),
    ensures
        match r {
            Option::Some((t, j)) => spec_jstr(s@, i as int, Seq::empty()) == Option::Some(
                (t@, j as int),
            ) && i < j <= s.len(),
            Option::None => spec_jstr(s@, i as int, Seq::empty()) is None,
        },
{
    let mut out: Vec<u8> = Vec::new();
    let mut k: usize = i;
    loop
        invariant
            i <= k <= s.len(),
            spec_jstr(s@, i as int, Seq::empty()) == spec_jstr(s@, k as int, out@),
        decreases s.len() - k,
    {
        if k >= s.len() {
            return Option::None;
        }
        let b = s[k];
        if b == 34 {
            return Option::Some((out, k + 1));
        } else if b == 92 {
            if k + 1 >= s.len() {
                return Option::None;
            }
            let e = s[k + 1];
            if e == 34 || e == 92 || e == 47 {
                out.push(e);
                k = k + 2;
            } else if e == 98 {
                out.push(8);
                k = k + 2;
            } else if e == 102 {
                out.push(12);
                k = k + 2;
            } else if e == 110 {
                out.push(10);
                k = k + 2;
            } else if e == 114 {
                out.push(13);
                k = k + 2;
            } else if e == 116 {
                out.push(9);
                k = k + 2;
            } else if e == 117 {
                if s.len() - k <= 5 {
                    return Option::None;
                }
                let h1 = hex_digit_val(s[k + 2]);
                let h2 = hex_digit_val(s[k + 3]);
                let h3 = hex_digit_val(s[k + 4]);
                let h4 = hex_digit_val(s[k + 5]);
                match (h1, h2, h3, h4) {
                    (
                        Option::Some(a),
                        Option::Some(b2),
                        Option::Some(c),
                        Option::Some(d),
                    ) => {
                        let v: u32 = (a as u32) * 4096 + (b2 as u32) * 256 + (c as u32) * 16
                            + (d as u32);
                        if 0xD800 <= v && v < 0xE000 {
                            return Option::None;
                        }
                        let ghost out0 = out@;
                        if v < 0x80 {
                            out.push(v as u8);
                        } else if v < 0x800 {
                            out.push(192 + (v / 64) as u8);
                            out.push(128 + (v % 64) as u8);
                        } else {
                            out.push(224 + (v / 4096) as u8);
                            out.push(128 + ((v / 64) % 64) as u8);
                            out.push(128 + (v % 64) as u8);
                        }
                        proof {
                            assert(out@ =~= out0 + utf8_of(v as nat));
                        }
                        k = k + 6;
                    },
                    _ => {
                        return Option::None;
                    },
                }
            } else {
                return Option::None;
            }
        } else if b < 32 {
            return Option::None;
        } else {
            out.push(b);
            k = k + 1;
        }
    }
}

/// The value of one hexadecimal digit, if it is one.
pub fn hex_digit_val(b: u8) -> (r: Option<u8>)
    ensures
        match r {
            Option::Some(v) => is_hex(b) && v as nat == hex_val(b),
            Option::None => !is_hex(b),
        },
{
    if 48 <= b && b <= 57 {
        Option::Some(b - 48)
    } else if 97 <= b && b <= 102 {
        Option::Some(b - 87)
    } else if 65 <= b && b <= 70 {
        Option::Some(b - 55)
    } else {
        Option::None
    }
}


/// End of a quoted string, scanned without unescaping, from just after
/// the opening quote.
pub open spec fn spec_str_skip(s: Seq<u8>, i: int) -> Option<int>
    decreases s.len() - i,
{
    if i < 0 || i >= s.len() {
        Option::None
    } else if s[i] == 34 {
        Option::Some(i + 1)
    } else if s[i] == 92 {
        if i + 1 >= s.len() {
            Option::None
        } else {
            spec_str_skip(s, i + 2)
        }
    } else {
        spec_str_skip(s, i + 1)
    }
}

/// Whether a byte can appear in a number token.
pub open spec fn is_numtok(b: u8) -> bool {
    is_digit(b) || b == 43 || b == 45 || b == 46 || b == 101 || b == 69
}

/// The end of the number-token run starting at `i`.
pub open spec fn spec_numtok_end(s: Seq<u8>, i: int) -> int
    decreases s.len() - i,
{
    if 0 <= i < s.len() && is_numtok(s[i]) {
        spec_numtok_end(s, i + 1)
    } else {
        i
    }
}

/// The end of the lowercase-letter run starting at `i`.
pub open spec fn spec_alpha_end(s: Seq<u8>, i: int) -> int
    decreases s.len() - i,
{
    if 0 <= i < s.len() && 97 <= s[i] <= 122 {
        spec_alpha_end(s, i + 1)
    } else {
        i
    }
}

/// The index just after the balanced close of an object or array whose
/// opener stood at `i - 1`, tracking string state on the way.
pub open spec fn spec_bracket(s: Seq<u8>, i: int, depth: nat, in_str: bool, esc: bool) -> Option<
    int,
>
    decreases s.len() - i,
{
    if i < 0 || i >= s.len() {
        Option::None
    } else {
        let b = s[i];
        if in_str {
            if esc {
                spec_bracket(s, i + 1, depth, true, false)
            } else if b == 92 {
                spec_bracket(s, i + 1, depth, true, true)
            } else if b == 34 {
                spec_bracket(s, i + 1, depth, false, false)
            } else {
                spec_bracket(s, i + 1, depth, true, false)
            }
        } else if b == 34 {
            spec_bracket(s, i + 1, depth, true, false)
        } else if b == 123 || b == 91 {
            spec_bracket(s, i + 1, depth + 1, false, false)
        } else if b == 125 || b == 93 {
            if depth == 1 {
                Option::Some(i + 1)
            } else {
                spec_bracket(s, i + 1, (depth - 1) as nat, false, false)
            }
        } else {
            spec_bracket(s, i + 1, depth, false, false)
        }
    }
}

/// The index just after the JSON value starting at `i`: a string, an
/// object or array (matched lexically), a number token, or a literal word.
pub open spec fn spec_skip_value(s: Seq<u8>, i: int) -> Option<int> {
    if i < 0 || i >= s.len() {
        Option::None
    } else {
        let b = s[i];
        if b == 34 {
            spec_str_skip(s, i + 1)
        } else if b == 123 || b == 91 {
            spec_bracket(s, i + 1, 1, false, false)
        } else if is_digit(b) || b == 45 {
            Option::Some(spec_numtok_end(s, i + 1))
        } else if 97 <= b <= 122 {
            Option::Some(spec_alpha_end(s, i + 1))
        } else {
            Option::None
        }
    }
}

/// Skip a quoted string, from just after the opening quote.
fn str_skip(s: &[u8], i: usize) -> (r: Option<usize>)
    requires
        i <= s.len(),
    ensures
        match r {
            Option::Some(j) => spec_str_skip(s@, i as int) == Option::Some(j as int) && i < j
                <= s.len(),
            Option::None => spec_str_skip(s@, i as int) is None,
        },
{
    let mut k: usize = i;
    loop
        invariant
            i <= k <= s.len(),
            spec_str_skip(s@, i as int) == spec_str_skip(s@, k as int),
        decreases s.len() - k,
    {
        if k >= s.len() {
            return Option::None;
        }
        let b = s[k];
        if b == 34 {
            return Option::Some(k + 1);
        } else if b == 92 {
            if k + 1 >= s.len() {
                return Option::None;
            }
            k = k + 2;
        } else {
            k = k + 1;
        }
    }
}

/// Find the end of a number-token run.
fn numtok_end(s: &[u8], i: usize) -> (j: usize)
    requires
        i <= s.len(),
    ensures
        j == spec_numtok_end(s@, i as int),
        i <= j <= s.len(),
{
    let mut k: usize = i;
    while k < s.len() && (s[k] >= 48 && s[k] <= 57 || s[k] == 43 || s[k] == 45 || s[k] == 46
        || s[k] == 101 || s[k] == 69)
        invariant
            i <= k <= s.len(),
            spec_numtok_end(s@, i as int) == spec_numtok_end(s@, k as int),
        decreases s.len() - k,
    {
        k = k + 1;
    }
    k
}

/// Find the end of a lowercase-letter run.
fn alpha_end(s: &[u8], i: usize) -> (j: usize)
    requires
        i <= s.len(),
    ensures
        j == spec_alpha_end(s@, i as int),
        i <= j <= s.len(),
{
    let mut k: usize = i;
    while k < s.len() && s[k] >= 97 && s[k] <= 122
        invariant
            i <= k <= s.len(),
            spec_alpha_end(s@, i as int) == spec_alpha_end(s@, k as int),
        decreases s.len() - k,
    {
        k = k + 1;
    }
    k
}

/// Skip to just after the balanced close of an object or array.
fn bracket_skip(s: &[u8], i: usize) -> (r: Option<usize>)
    requires
        i <= s.len(),
    ensures
        match r {
            Option::Some(j) => spec_bracket(s@, i as int, 1, false, false) == Option::Some(
                j as int,
            ) && i < j <= s.len(),
            Option::None => spec_bracket(s@, i as int, 1, false, false) is None,
        },
{
    let mut k: usize = i;
    let mut depth: u128 = 1;
    let mut in_str: bool = false;
    let mut esc: bool = false;
    loop
        invariant
            i <= k <= s.len(),
            1 <= depth <= 1 + (k - i),
            !in_str ==> !esc,
            spec_bracket(s@, i as int, 1, false, false) == spec_bracket(
                s@,
                k as int,
                depth as nat,
                in_str,
                esc,
            ),
        decreases s.len() - k,
    {
        if k >= s.len() {
            return Option::None;
        }
        let b = s[k];
        let ghost k0 = k as int;
        let ghost d0 = depth as nat;
        let ghost s0 = in_str;
        let ghost e0 = esc;
        if in_str {
            if esc {
                esc = false;
            } else if b == 92 {
                esc = true;
            } else if b == 34 {
                in_str = false;
            }
        } else if b == 34 {
            in_str = true;
        } else if b == 123 || b == 91 {
            depth = depth + 1;
        } else if b == 125 || b == 93 {
            if depth == 1 {
                return Option::Some(k + 1);
            }
            depth = depth - 1;
        }
        k = k + 1;
        proof {
            assert(spec_bracket(s@, k0, d0, s0, e0) == spec_bracket(
                s@,
                k as int,
                depth as nat,
                in_str,
                esc,
            ));
        }
    }
}

/// Skip one JSON value.
fn skip_value(s: &[u8], i: usize) -> (r: Option<usize>)
    requires
        i <= s.len(),
    ensures
        match r {
            Option::Some(j) => spec_skip_value(s@, i as int) == Option::Some(j as int) && i < j
                <= s.len(),
            Option::None => spec_skip_value(s@, i as int) is None,
        },
{
    if i >= s.len() {
        return Option::None;
    }
    let b = s[i];
    if b == 34 {
        str_skip(s, i + 1)
    } else if b == 123 || b == 91 {
        bracket_skip(s, i + 1)
    } else if b >= 48 && b <= 57 || b == 45 {
        Option::Some(numtok_end(s, i + 1))
    } else if b >= 97 && b <= 122 {
        Option::Some(alpha_end(s, i + 1))
    } else {
        Option::None
    }
}

/// Read an unsigned integer with no leading zero, as a `u32`.
pub open spec fn spec_parse_u32_num(s: Seq<u8>, i: int) -> Option<(u32, int)> {
    let e = spec_num_end(s, i);
    if i < 0 || i >= s.len() || e == i {
        Option::None
    } else if s[i] == 48 && e - i > 1 {
        Option::None
    } else if dec_val(s.subrange(i, e)) > u32::MAX {
        Option::None
    } else {
        Option::Some((dec_val(s.subrange(i, e)) as u32, e))
    }
}

/// Read an unsigned integer with no leading zero, as a `u16`.
pub open spec fn spec_parse_u16_num(s: Seq<u8>, i: int) -> Option<(u16, int)> {
    let e = spec_num_end(s, i);
    if i < 0 || i >= s.len() || e == i {
        Option::None
    } else if s[i] == 48 && e - i > 1 {
        Option::None
    } else if dec_val(s.subrange(i, e)) > u16::MAX {
        Option::None
    } else {
        Option::Some((dec_val(s.subrange(i, e)) as u16, e))
    }
}

/// Parse an unsigned `u32` field value.
fn parse_u32_num(s: &[u8], i: usize) -> (r: Option<(u32, usize)>)
    requires
        i <= s.len(),
    ensures
        match r {
            Option::Some((v, j)) => spec_parse_u32_num(s@, i as int) == Option::Some(
                (v, j as int),
            ) && i < j <= s.len(),
            Option::None => spec_parse_u32_num(s@, i as int) is None,
        },
{
    if i >= s.len() {
        return Option::None;
    }
    let e = digits_end(s, i);
    if e == i {
        return Option::None;
    }
    if s[i] == 48 && e - i > 1 {
        return Option::None;
    }
    match parse_u32_digits(s, i, e) {
        Option::Some(v) => Option::Some((v, e)),
        Option::None => Option::None,
    }
}

/// Parse an unsigned `u16` field value.
fn parse_u16_num(s: &[u8], i: usize) -> (r: Option<(u16, usize)>)
    requires
        i <= s.len(),
    ensures
        match r {
            Option::Some((v, j)) => spec_parse_u16_num(s@, i as int) == Option::Some(
                (v, j as int),
            ) && i < j <= s.len(),
            Option::None => spec_parse_u16_num(s@, i as int) is None,
        },
{
    if i >= s.len() {
        return Option::None;
    }
    let e = digits_end(s, i);
    if e == i {
        return Option::None;
    }
    if s[i] == 48 && e - i > 1 {
        return Option::None;
    }
    match parse_u32_digits(s, i, e) {
        Option::Some(v) => {
            if v > 0xffff {
                Option::None
            } else {
                Option::Some((v as u16, e))
            }
        },
        Option::None => Option::None,
    }
}

/// Read a boolean literal.
pub open spec fn spec_parse_bool(s: Seq<u8>, i: int) -> Option<(bool, int)> {
    if 0 <= i && i + 4 <= s.len() && s[i] == 116 && s[i + 1] == 114 && s[i + 2] == 117 && s[i + 3]
        == 101 {
        Option::Some((true, i + 4))
    } else if 0 <= i && i + 5 <= s.len() && s[i] == 102 && s[i + 1] == 97 && s[i + 2] == 108 && s[i
        + 3] == 115 && s[i + 4] == 101 {
        Option::Some((false, i + 5))
    } else {
        Option::None
    }
}

/// Parse a boolean literal.
fn parse_bool(s: &[u8], i: usize) -> (r: Option<(bool, usize)>)
    requires
        i <= s.len(),
    ensures
        match r {
            Option::Some((v, j)) => spec_parse_bool(s@, i as int) == Option::Some((v, j as int))
                && i < j <= s.len(),
            Option::None => spec_parse_bool(s@, i as int) is None,
        },
{
    if s.len() - i >= 4 && s[i] == 116 && s[i + 1] == 114 && s[i + 2] == 117 && s[i + 3] == 101 {
        Option::Some((true, i + 4))
    } else if s.len() - i >= 5 && s[i] == 102 && s[i + 1] == 97 && s[i + 2] == 108 && s[i + 3]
        == 115 && s[i + 4] == 101 {
        Option::Some((false, i + 5))
    } else {
        Option::None
    }
}

/// Whether the digits in `t[i..e]` form one valid address octet: one to
/// three digits, no leading zero, value at most 255.
pub open spec fn octet_ok(t: Seq<u8>, i: int, e: int) -> bool {
    1 <= e - i <= 3 && (t[i] != 48 || e - i == 1) && dec_val(t.subrange(i, e)) <= 255
}

/// Read an IPv4 address from its full text: exactly four decimal octets
/// joined by dots, each without leading zeros and at most 255.
pub open spec fn spec_parse_ipv4_text(t: Seq<u8>) -> Option<Ipv4Addr> {
    let e1 = spec_num_end(t, 0);
    let s2 = e1 + 1;
    let e2 = spec_num_end(t, s2);
    let s3 = e2 + 1;
    let e3 = spec_num_end(t, s3);
    let s4 = e3 + 1;
    let e4 = spec_num_end(t, s4);
    if !(octet_ok(t, 0, e1) && e1 < t.len() && t[e1] == 46) {
        Option::None
    } else if !(octet_ok(t, s2, e2) && e2 < t.len() && t[e2] == 46) {
        Option::None
    } else if !(octet_ok(t, s3, e3) && e3 < t.len() && t[e3] == 46) {
        Option::None
    } else if !(octet_ok(t, s4, e4) && e4 == t.len()) {
        Option::None
    } else {
        Option::Some(
            Ipv4Addr {
                a: dec_val(t.subrange(0, e1)) as u8,
                b: dec_val(t.subrange(s2, e2)) as u8,
                c: dec_val(t.subrange(s3, e3)) as u8,
                d: dec_val(t.subrange(s4, e4)) as u8,
            },
        )
    }
}

/// One octet's value, if `t[i..e]` is a valid octet.
fn octet_val(t: &[u8], i: usize, e: usize) -> (r: Option<u8>)
    requires
        i <= e <= t.len(),
        forall|k: int| i <= k < e ==> is_digit(#[trigger] t@[k]),
    ensures
        match r {
            Option::Some(v) => octet_ok(t@, i as int, e as int) && v as nat == dec_val(
                t@.subrange(i as int, e as int),
            ),
            Option::None => !octet_ok(t@, i as int, e as int),
        },
{
    if e - i < 1 || e - i > 3 {
        return Option::None;
    }
    if t[i] == 48 && e - i > 1 {
        return Option::None;
    }
    match parse_u32_digits(t, i, e) {
        Option::Some(v) => {
            if v <= 255 {
                Option::Some(v as u8)
            } else {
                Option::None
            }
        },
        Option::None => {
            proof {
                crate::text::lemma_dec_val_upper(t@.subrange(i as int, e as int));
                crate::text::lemma_pow10_mono((e - i) as nat, 3);
                reveal_with_fuel(crate::text::pow10, 4);
            }
            Option::None
        },
    }
}

/// Parse an IPv4 address from its full text, as `str::parse` would:
/// four decimal octets joined by dots, no leading zeros, each at most 255.
pub fn parse_ipv4_text(t: &[u8]) -> (r: Option<Ipv4Addr>)
    ensures
        r == spec_parse_ipv4_text(t@),
{
    let e1 = digits_end(t, 0);
    let a = match octet_val(t, 0, e1) {
        Option::Some(v) => v,
        Option::None => {
            return Option::None;
        },
    };
    if !(e1 < t.len() && t[e1] == 46) {
        return Option::None;
    }
    let s2 = e1 + 1;
    let e2 = digits_end(t, s2);
    let b = match octet_val(t, s2, e2) {
        Option::Some(v) => v,
        Option::None => {
            return Option::None;
        },
    };
    if !(e2 < t.len() && t[e2] == 46) {
        return Option::None;
    }
    let s3 = e2 + 1;
    let e3 = digits_end(t, s3);
    let c = match octet_val(t, s3, e3) {
        Option::Some(v) => v,
        Option::None => {
            return Option::None;
        },
    };
    if !(e3 < t.len() && t[e3] == 46) {
        return Option::None;
    }
    let s4 = e3 + 1;
    let e4 = digits_end(t, s4);
    let d = match octet_val(t, s4, e4) {
        Option::Some(v) => v,
        Option::None => {
            return Option::None;
        },
    };
    if e4 != t.len() {
        return Option::None;
    }
    Option::Some(Ipv4Addr { a, b, c, d })
}


/// Clamp a parser-returned index so recursion always advances.
pub open spec fn adv(s: Seq<u8>, i: int, j: int) -> int {
    if i < j && j <= s.len() {
        j
    } else {
        i + 1
    }
}

/// The view of an optional byte vector.
pub open spec fn ob(o: Option<Vec<u8>>) -> Option<Seq<u8>> {
    match o {
        Option::Some(v) => Option::Some(v@),
        Option::None => Option::None,
    }
}

/// Read the fields of an error object, from just after its opening brace:
/// `code` and `message` are read, either at most once, anything else is
/// skipped.  Both must be present by the closing brace.
pub open spec fn spec_err_fields(
    s: Seq<u8>,
    i: int,
    first: bool,
    code: Option<u16>,
    message: Option<Seq<u8>>,
) -> Option<(ApiErrorV, int)>
    decreases s.len() - i,
{
    let a = spec_ws(s, i);
    if i < 0 || a >= s.len() {
        Option::None
    } else if s[a] == 125 {
        match (code, message) {
            (Option::Some(c), Option::Some(m)) => Option::Some(
                (ApiErrorV { code: c, message: m }, a + 1),
            ),
            _ => Option::None,
        }
    } else {
        let b = if first {
            a
        } else if s[a] == 44 {
            spec_ws(s, a + 1)
        } else {
            -1
        };
        if b < 0 || b >= s.len() || s[b] != 34 {
            Option::None
        } else {
            match spec_jstr(s, b + 1, Seq::empty()) {
                Option::None => Option::None,
                Option::Some((k, c)) => {
                    let d = spec_ws(s, c);
                    if d >= s.len() || s[d] != 58 {
                        Option::None
                    } else {
                        let e = spec_ws(s, d + 1);
                        if k == ascii_of("code"@) {
                            if code is Some {
                                Option::None
                            } else {
                                match spec_parse_u16_num(s, e) {
                                    Option::None => Option::None,
                                    Option::Some((v, f)) => spec_err_fields(
                                        s,
                                        adv(s, i, f),
                                        false,
                                        Option::Some(v),
                                        message,
                                    ),
                                }
                            }
                        } else if k == ascii_of("message"@) {
                            if message is Some {
                                Option::None
                            } else if e >= s.len() || s[e] != 34 {
                                Option::None
                            } else {
                                match spec_jstr(s, e + 1, Seq::empty()) {
                                    Option::None => Option::None,
                                    Option::Some((m, f)) => spec_err_fields(
                                        s,
                                        adv(s, i, f),
                                        false,
                                        code,
                                        Option::Some(m),
                                    ),
                                }
                            }
                        } else {
                            match spec_skip_value(s, e) {
                                Option::None => Option::None,
                                Option::Some(f) => spec_err_fields(
                                    s,
                                    adv(s, i, f),
                                    false,
                                    code,
                                    message,
                                ),
                            }
                        }
                    }
                },
            }
        }
    }
}

/// Parse an error object, from just after its opening brace.
fn parse_error_obj(s: &[u8], i: usize) -> (r: Option<(ApiError, usize)>)
    requires
        i <= s.len(),
    ensures
        match r {
            Option::Some((e, j)) => spec_err_fields(s@, i as int, true, Option::None, Option::None)
                == Option::Some((e@, j as int)) && i < j <= s.len(),
            Option::None => spec_err_fields(s@, i as int, true, Option::None, Option::None)
                is None,
        },
{
    let mut k: usize = i;
    let mut first: bool = true;
    let mut code: Option<u16> = Option::None;
    let mut msg: Option<Vec<u8>> = Option::None;
    loop
        invariant
            i <= k <= s.len(),
            spec_err_fields(s@, i as int, true, Option::None, Option::None) == spec_err_fields(
                s@,
                k as int,
                first,
                code,
                ob(msg),
            ),
        decreases s.len() - k,
    {
        let ghost k0 = k as int;
        let a = skip_ws(s, k);
        if a >= s.len() {
            return Option::None;
        }
        if s[a] == 125 {
            match (code, msg) {
                (Option::Some(c), Option::Some(m)) => {
                    return Option::Some((ApiError { code: c, message: m }, a + 1));
                },
                _ => {
                    return Option::None;
                },
            }
        }
        let b: usize;
        if first {
            b = a;
        } else {
            if s[a] != 44 {
                return Option::None;
            }
            b = skip_ws(s, a + 1);
        }
        if b >= s.len() || s[b] != 34 {
            return Option::None;
        }
        let (key, c) = match parse_jstr(s, b + 1) {
            Option::Some(p) => p,
            Option::None => {
                return Option::None;
            },
        };
        let d = skip_ws(s, c);
        if d >= s.len() || s[d] != 58 {
            return Option::None;
        }
        let e0 = skip_ws(s, d + 1);
        proof {
            reveal_strlit("code");
            reveal_strlit("message");
        }
        let kc = lit_bytes("code");
        let km = lit_bytes("message");
        if bytes_eq(key.as_slice(), kc.as_slice()) {
            if code.is_some() {
                return Option::None;
            }
            match parse_u16_num(s, e0) {
                Option::Some((v, f)) => {
                    code = Option::Some(v);
                    first = false;
                    k = f;
                    proof {
                        assert(adv(s@, k0, f as int) == f as int);
                    }
                },
                Option::None => {
                    return Option::None;
                },
            }
        } else if bytes_eq(key.as_slice(), km.as_slice()) {
            if msg.is_some() {
                return Option::None;
            }
            if e0 >= s.len() || s[e0] != 34 {
                return Option::None;
            }
            match parse_jstr(s, e0 + 1) {
                Option::Some((m, f)) => {
                    msg = Option::Some(m);
                    first = false;
                    k = f;
                    proof {
                        assert(adv(s@, k0, f as int) == f as int);
                    }
                },
                Option::None => {
                    return Option::None;
                },
            }
        } else {
            match skip_value(s, e0) {
                Option::Some(f) => {
                    first = false;
                    k = f;
                    proof {
                        assert(adv(s@, k0, f as int) == f as int);
                    }
                },
                Option::None => {
                    return Option::None;
                },
            }
        }
    }
}

/// Read the elements of an array of error objects, from just after the
/// opening bracket; `acc` carries the errors read so far, in order.
pub open spec fn spec_errs_arr(s: Seq<u8>, i: int, first: bool, acc: Seq<ApiErrorV>) -> Option<
    (Seq<ApiErrorV>, int),
>
    decreases s.len() - i,
{
    let a = spec_ws(s, i);
    if i < 0 || a >= s.len() {
        Option::None
    } else if s[a] == 93 {
        Option::Some((acc, a + 1))
    } else {
        let b = if first {
            a
        } else if s[a] == 44 {
            spec_ws(s, a + 1)
        } else {
            -1
        };
        if b < 0 || b >= s.len() || s[b] != 123 {
            Option::None
        } else {
            match spec_err_fields(s, b + 1, true, Option::None, Option::None) {
                Option::None => Option::None,
                Option::Some((e, f)) => spec_errs_arr(s, adv(s, i, f), false, acc.push(e)),
            }
        }
    }
}

/// Parse an array of error objects, from just after the opening bracket.
fn parse_errs_arr(s: &[u8], i: usize) -> (r: Option<(Vec<ApiError>, usize)>)
    requires
        i <= s.len(),
    ensures
        match r {
            Option::Some((es, j)) => spec_errs_arr(s@, i as int, true, Seq::empty())
                == Option::Some((crate::cf_base::errors_view(es@), j as int)) && i < j <= s.len(),
            Option::None => spec_errs_arr(s@, i as int, true, Seq::empty()) is None,
        },
{
    let mut k: usize = i;
    let mut first: bool = true;
    let mut acc: Vec<ApiError> = Vec::new();
    proof {
        assert(crate::cf_base::errors_view(acc@) =~= Seq::<ApiErrorV>::empty());
    }
    loop
        invariant
            i <= k <= s.len(),
            spec_errs_arr(s@, i as int, true, Seq::empty()) == spec_errs_arr(
                s@,
                k as int,
                first,
                crate::cf_base::errors_view(acc@),
            ),
        decreases s.len() - k,
    {
        let ghost k0 = k as int;
        let a = skip_ws(s, k);
        if a >= s.len() {
            return Option::None;
        }
        if s[a] == 93 {
            return Option::Some((acc, a + 1));
        }
        let b: usize;
        if first {
            b = a;
        } else {
            if s[a] != 44 {
                return Option::None;
            }
            b = skip_ws(s, a + 1);
        }
        if b >= s.len() || s[b] != 123 {
            return Option::None;
        }
        match parse_error_obj(s, b + 1) {
            Option::Some((e, f)) => {
                let ghost acc0 = crate::cf_base::errors_view(acc@);
                let ghost ev = e@;
                acc.push(e);
                first = false;
                k = f;
                proof {
                    assert(adv(s@, k0, f as int) == f as int);
                    assert(crate::cf_base::errors_view(acc@) =~= acc0.push(ev));
                }
            },
            Option::None => {
                return Option::None;
            },
        }
    }
}

/// Read the fields of the failure wrapper, from just after its opening
/// brace: `errors` is read at most once, anything else is skipped, and
/// `errors` must be present by the closing brace.
pub open spec fn spec_errdoc_fields(
    s: Seq<u8>,
    i: int,
    first: bool,
    errs: Option<Seq<ApiErrorV>>,
) -> Option<(ApiErrorsV, int)>
    decreases s.len() - i,
{
    let a = spec_ws(s, i);
    if i < 0 || a >= s.len() {
        Option::None
    } else if s[a] == 125 {
        match errs {
            Option::Some(es) => Option::Some((ApiErrorsV { errors: es }, a + 1)),
            Option::None => Option::None,
        }
    } else {
        let b = if first {
            a
        } else if s[a] == 44 {
            spec_ws(s, a + 1)
        } else {
            -1
        };
        if b < 0 || b >= s.len() || s[b] != 34 {
            Option::None
        } else {
            match spec_jstr(s, b + 1, Seq::empty()) {
                Option::None => Option::None,
                Option::Some((k, c)) => {
                    let d = spec_ws(s, c);
                    if d >= s.len() || s[d] != 58 {
                        Option::None
                    } else {
                        let e = spec_ws(s, d + 1);
                        if k == ascii_of("errors"@) {
                            if errs is Some {
                                Option::None
                            } else if e >= s.len() || s[e] != 91 {
                                Option::None
                            } else {
                                match spec_errs_arr(s, e + 1, true, Seq::empty()) {
                                    Option::None => Option::None,
                                    Option::Some((es, f)) => spec_errdoc_fields(
                                        s,
                                        adv(s, i, f),
                                        false,
                                        Option::Some(es),
                                    ),
                                }
                            }
                        } else {
                            match spec_skip_value(s, e) {
                                Option::None => Option::None,
                                Option::Some(f) => spec_errdoc_fields(
                                    s,
                                    adv(s, i, f),
                                    false,
                                    errs,
                                ),
                            }
                        }
                    }
                },
            }
        }
    }
}

/// Read a whole failure document: optional whitespace, one object holding
/// an `errors` array (and any skipped extras), optional whitespace, end.
pub open spec fn spec_parse_errors_doc(s: Seq<u8>) -> Option<ApiErrorsV> {
    let a = spec_ws(s, 0);
    if a >= s.len() || s[a] != 123 {
        Option::None
    } else {
        match spec_errdoc_fields(s, a + 1, true, Option::None) {
            Option::None => Option::None,
            Option::Some((d, j)) => if spec_ws(s, j) == s.len() {
                Option::Some(d)
            } else {
                Option::None
            },
        }
    }
}


/// The view of an optional record.
pub open spec fn orec(o: Option<DnsRecord>) -> Option<DnsRecordV> {
    match o {
        Option::Some(r) => Option::Some(r@),
        Option::None => Option::None,
    }
}

/// The deep view of an optional record list.
pub open spec fn orecs(o: Option<Vec<DnsRecord>>) -> Option<Seq<DnsRecordV>> {
    match o {
        Option::Some(rs) => Option::Some(crate::cf_base::records_view(rs@)),
        Option::None => Option::None,
    }
}

/// The view of an optional error list.
pub open spec fn oerrs(o: Option<Vec<ApiError>>) -> Option<Seq<ApiErrorV>> {
    match o {
        Option::Some(v) => Option::Some(crate::cf_base::errors_view(v@)),
        Option::None => Option::None,
    }
}

/// Parse the failure wrapper the provider returns for a non-success
/// response.  Succeeds exactly on what the wire grammar admits, with the
/// errors in the order received.
pub fn parse_api_errors(s: &[u8]) -> (r: Option<ApiErrors>)
    ensures
        match r {
            Option::Some(d) => spec_parse_errors_doc(s@) == Option::Some(d@),
            Option::None => spec_parse_errors_doc(s@) is None,
        },
{
    let a = skip_ws(s, 0);
    if a >= s.len() {
        return Option::None;
    }
    if s[a] != 123 {
        return Option::None;
    }
    let mut k: usize = a + 1;
    let mut first: bool = true;
    let mut errs: Option<Vec<ApiError>> = Option::None;
    loop
        invariant
            a + 1 <= k <= s.len(),
            a as int == spec_ws(s@, 0),
            a < s.len() && s@[a as int] == 123,
            spec_errdoc_fields(s@, a + 1, true, Option::None) == spec_errdoc_fields(
                s@,
                k as int,
                first,
                oerrs(errs),
            ),
        decreases s.len() - k,
    {
        let ghost k0 = k as int;
        let w = skip_ws(s, k);
        if w >= s.len() {
            return Option::None;
        }
        if s[w] == 125 {
            match errs {
                Option::Some(es) => {
                    let j = skip_ws(s, w + 1);
                    if j != s.len() {
                        return Option::None;
                    }
                    let d = ApiErrors { errors: es };
                    proof {
                        assert(d@.errors =~= crate::cf_base::errors_view(d.errors@));
                    }
                    return Option::Some(d);
                },
                Option::None => {
                    return Option::None;
                },
            }
        }
        let b: usize;
        if first {
            b = w;
        } else {
            if s[w] != 44 {
                return Option::None;
            }
            b = skip_ws(s, w + 1);
        }
        if b >= s.len() || s[b] != 34 {
            return Option::None;
        }
        let (key, c) = match parse_jstr(s, b + 1) {
            Option::Some(p) => p,
            Option::None => {
                return Option::None;
            },
        };
        let d = skip_ws(s, c);
        if d >= s.len() || s[d] != 58 {
            return Option::None;
        }
        let e0 = skip_ws(s, d + 1);
        proof {
            reveal_strlit("errors");
        }
        let ke = lit_bytes("errors");
        if bytes_eq(key.as_slice(), ke.as_slice()) {
            if errs.is_some() {
                return Option::None;
            }
            if e0 >= s.len() || s[e0] != 91 {
                return Option::None;
            }
            match parse_errs_arr(s, e0 + 1) {
                Option::Some((es, f)) => {
                    errs = Option::Some(es);
                    first = false;
                    k = f;
                    proof {
                        assert(adv(s@, k0, f as int) == f as int);
                    }
                },
                Option::None => {
                    return Option::None;
                },
            }
        } else {
            match skip_value(s, e0) {
                Option::Some(f) => {
                    first = false;
                    k = f;
                    proof {
                        assert(adv(s@, k0, f as int) == f as int);
                    }
                },
                Option::None => {
                    return Option::None;
                },
            }
        }
    }
}


/// The record content a tag, a content text, and an optional priority
/// denote: an `A` tag must carry a well-formed address, an `MX` tag must
/// carry a priority, and an unknown tag is refused.
pub open spec fn spec_content_of(tag: Seq<u8>, text: Seq<u8>, pr: Option<u16>) -> Option<
    DnsContentV,
> {
    if tag == ascii_of("A"@) {
        match spec_parse_ipv4_text(text) {
            Option::Some(ip) => Option::Some(DnsContentV::A { content: ip }),
            Option::None => Option::None,
        }
    } else if tag == ascii_of("AAAA"@) {
        Option::Some(DnsContentV::AAAA { content: text })
    } else if tag == ascii_of("CNAME"@) {
        Option::Some(DnsContentV::CNAME { content: text })
    } else if tag == ascii_of("NS"@) {
        Option::Some(DnsContentV::NS { content: text })
    } else if tag == ascii_of("MX"@) {
        match pr {
            Option::Some(p) => Option::Some(DnsContentV::MX { content: text, priority: p }),
            Option::None => Option::None,
        }
    } else if tag == ascii_of("TXT"@) {
        Option::Some(DnsContentV::TXT { content: text })
    } else if tag == ascii_of("SRV"@) {
        Option::Some(DnsContentV::SRV { content: text })
    } else {
        Option::None
    }
}

/// Build record content from its parsed parts.
fn content_of(tag: &[u8], text: Vec<u8>, pr: Option<u16>) -> (r: Option<DnsContent>)
    ensures
        match r {
            Option::Some(c) => spec_content_of(tag@, text@, pr) == Option::Some(c@),
            Option::None => spec_content_of(tag@, text@, pr) is None,
        },
{
    proof {
        reveal_strlit("A");
        reveal_strlit("AAAA");
        reveal_strlit("CNAME");
        reveal_strlit("NS");
        reveal_strlit("MX");
        reveal_strlit("TXT");
        reveal_strlit("SRV");
    }
    let ta = lit_bytes("A");
    let taaaa = lit_bytes("AAAA");
    let tcname = lit_bytes("CNAME");
    let tns = lit_bytes("NS");
    let tmx = lit_bytes("MX");
    let ttxt = lit_bytes("TXT");
    let tsrv = lit_bytes("SRV");
    if bytes_eq(tag, ta.as_slice()) {
        match parse_ipv4_text(text.as_slice()) {
            Option::Some(ip) => Option::Some(DnsContent::A { content: ip }),
            Option::None => Option::None,
        }
    } else if bytes_eq(tag, taaaa.as_slice()) {
        Option::Some(DnsContent::AAAA { content: text })
    } else if bytes_eq(tag, tcname.as_slice()) {
        Option::Some(DnsContent::CNAME { content: text })
    } else if bytes_eq(tag, tns.as_slice()) {
        Option::Some(DnsContent::NS { content: text })
    } else if bytes_eq(tag, tmx.as_slice()) {
        match pr {
            Option::Some(p) => Option::Some(DnsContent::MX { content: text, priority: p }),
            Option::None => Option::None,
        }
    } else if bytes_eq(tag, ttxt.as_slice()) {
        Option::Some(DnsContent::TXT { content: text })
    } else if bytes_eq(tag, tsrv.as_slice()) {
        Option::Some(DnsContent::SRV { content: text })
    } else {
        Option::None
    }
}

/// Read the fields of a record object, from just after its opening brace.
/// The known fields are read, each at most once; unknown fields are
/// skipped; every field but `priority` must be present by the closing
/// brace, and the tag, content text and priority must denote a content.
pub open spec fn spec_rec_fields(
    s: Seq<u8>,
    i: int,
    first: bool,
    name: Option<Seq<u8>>,
    ttl: Option<u32>,
    mo: Option<Seq<u8>>,
    co: Option<Seq<u8>>,
    pxa: Option<bool>,
    tag: Option<Seq<u8>>,
    text: Option<Seq<u8>>,
    prio: Option<u16>,
    idv: Option<Seq<u8>>,
    pxd: Option<bool>,
) -> Option<(DnsRecordV, int)>
    decreases s.len() - i,
{
    let a = spec_ws(s, i);
    if i < 0 || a >= s.len() {
        Option::None
    } else if s[a] == 125 {
        match (name, ttl, mo, co, pxa, tag, text, idv, pxd) {
            (
                Option::Some(n),
                Option::Some(t),
                Option::Some(m),
                Option::Some(cr),
                Option::Some(pa),
                Option::Some(tg),
                Option::Some(tx),
                Option::Some(id),
                Option::Some(pd),
            ) => {
                match spec_content_of(tg, tx, prio) {
                    Option::Some(c) => Option::Some(
                        (
                            DnsRecordV {
                                name: n,
                                ttl: t,
                                modified_on: m,
                                created_on: cr,
                                proxiable: pa,
                                content: c,
                                id: id,
                                proxied: pd,
                            },
                            a + 1,
                        ),
                    ),
                    Option::None => Option::None,
                }
            },
            _ => Option::None,
        }
    } else {
        let b = if first {
            a
        } else if s[a] == 44 {
            spec_ws(s, a + 1)
        } else {
            -1
        };
        if b < 0 || b >= s.len() || s[b] != 34 {
            Option::None
        } else {
            match spec_jstr(s, b + 1, Seq::empty()) {
                Option::None => Option::None,
                Option::Some((k, c)) => {
                    let d = spec_ws(s, c);
                    if d >= s.len() || s[d] != 58 {
                        Option::None
                    } else {
                        let e = spec_ws(s, d + 1);
                        if k == ascii_of("name"@) {
                            if name is Some || e >= s.len() || s[e] != 34 {
                                Option::None
                            } else {
                                match spec_jstr(s, e + 1, Seq::empty()) {
                                    Option::None => Option::None,
                                    Option::Some((v, f)) => spec_rec_fields(
                                        s,
                                        adv(s, i, f),
                                        false,
                                        Option::Some(v),
                                        ttl,
                                        mo,
                                        co,
                                        pxa,
                                        tag,
                                        text,
                                        prio,
                                        idv,
                                        pxd,
                                    ),
                                }
                            }
                        } else if k == ascii_of("ttl"@) {
                            if ttl is Some {
                                Option::None
                            } else {
                                match spec_parse_u32_num(s, e) {
                                    Option::None => Option::None,
                                    Option::Some((v, f)) => spec_rec_fields(
                                        s,
                                        adv(s, i, f),
                                        false,
                                        name,
                                        Option::Some(v),
                                        mo,
                                        co,
                                        pxa,
                                        tag,
                                        text,
                                        prio,
                                        idv,
                                        pxd,
                                    ),
                                }
                            }
                        } else if k == ascii_of("modified_on"@) {
                            if mo is Some || e >= s.len() || s[e] != 34 {
                                Option::None
                            } else {
                                match spec_jstr(s, e + 1, Seq::empty()) {
                                    Option::None => Option::None,
                                    Option::Some((v, f)) => spec_rec_fields(
                                        s,
                                        adv(s, i, f),
                                        false,
                                        name,
                                        ttl,
                                        Option::Some(v),
                                        co,
                                        pxa,
                                        tag,
                                        text,
                                        prio,
                                        idv,
                                        pxd,
                                    ),
                                }
                            }
                        } else if k == ascii_of("created_on"@) {
                            if co is Some || e >= s.len() || s[e] != 34 {
                                Option::None
                            } else {
                                match spec_jstr(s, e + 1, Seq::empty()) {
                                    Option::None => Option::None,
                                    Option::Some((v, f)) => spec_rec_fields(
                                        s,
                                        adv(s, i, f),
                                        false,
                                        name,
                                        ttl,
                                        mo,
                                        Option::Some(v),
                                        pxa,
                                        tag,
                                        text,
                                        prio,
                                        idv,
                                        pxd,
                                    ),
                                }
                            }
                        } else if k == ascii_of("proxiable"@) {
                            if pxa is Some {
                                Option::None
                            } else {
                                match spec_parse_bool(s, e) {
                                    Option::None => Option::None,
                                    Option::Some((v, f)) => spec_rec_fields(
                                        s,
                                        adv(s, i, f),
                                        false,
                                        name,
                                        ttl,
                                        mo,
                                        co,
                                        Option::Some(v),
                                        tag,
                                        text,
                                        prio,
                                        idv,
                                        pxd,
                                    ),
                                }
                            }
                        } else if k == ascii_of("type"@) {
                            if tag is Some || e >= s.len() || s[e] != 34 {
                                Option::None
                            } else {
                                match spec_jstr(s, e + 1, Seq::empty()) {
                                    Option::None => Option::None,
                                    Option::Some((v, f)) => spec_rec_fields(
                                        s,
                                        adv(s, i, f),
                                        false,
                                        name,
                                        ttl,
                                        mo,
                                        co,
                                        pxa,
                                        Option::Some(v),
                                        text,
                                        prio,
                                        idv,
                                        pxd,
                                    ),
                                }
                            }
                        } else if k == ascii_of("content"@) {
                            if text is Some || e >= s.len() || s[e] != 34 {
                                Option::None
                            } else {
                                match spec_jstr(s, e + 1, Seq::empty()) {
                                    Option::None => Option::None,
                                    Option::Some((v, f)) => spec_rec_fields(
                                        s,
                                        adv(s, i, f),
                                        false,
                                        name,
                                        ttl,
                                        mo,
                                        co,
                                        pxa,
                                        tag,
                                        Option::Some(v),
                                        prio,
                                        idv,
                                        pxd,
                                    ),
                                }
                            }
                        } else if k == ascii_of("priority"@) {
                            if prio is Some {
                                Option::None
                            } else {
                                match spec_parse_u16_num(s, e) {
                                    Option::None => Option::None,
                                    Option::Some((v, f)) => spec_rec_fields(
                                        s,
                                        adv(s, i, f),
                                        false,
                                        name,
                                        ttl,
                                        mo,
                                        co,
                                        pxa,
                                        tag,
                                        text,
                                        Option::Some(v),
                                        idv,
                                        pxd,
                                    ),
                                }
                            }
                        } else if k == ascii_of("id"@) {
                            if idv is Some || e >= s.len() || s[e] != 34 {
                                Option::None
                            } else {
                                match spec_jstr(s, e + 1, Seq::empty()) {
                                    Option::None => Option::None,
                                    Option::Some((v, f)) => spec_rec_fields(
                                        s,
                                        adv(s, i, f),
                                        false,
                                        name,
                                        ttl,
                                        mo,
                                        co,
                                        pxa,
                                        tag,
                                        text,
                                        prio,
                                        Option::Some(v),
                                        pxd,
                                    ),
                                }
                            }
                        } else if k == ascii_of("proxied"@) {
                            if pxd is Some {
                                Option::None
                            } else {
                                match spec_parse_bool(s, e) {
                                    Option::None => Option::None,
                                    Option::Some((v, f)) => spec_rec_fields(
                                        s,
                                        adv(s, i, f),
                                        false,
                                        name,
                                        ttl,
                                        mo,
                                        co,
                                        pxa,
                                        tag,
                                        text,
                                        prio,
                                        idv,
                                        Option::Some(v),
                                    ),
                                }
                            }
                        } else {
                            match spec_skip_value(s, e) {
                                Option::None => Option::None,
                                Option::Some(f) => spec_rec_fields(
                                    s,
                                    adv(s, i, f),
                                    false,
                                    name,
                                    ttl,
                                    mo,
                                    co,
                                    pxa,
                                    tag,
                                    text,
                                    prio,
                                    idv,
                                    pxd,
                                ),
                            }
                        }
                    }
                }
            }
        }
    }
}

/// Parse a record object, from just after its opening brace.
#[verifier::rlimit(100)]
fn parse_record_obj(s: &[u8], i: usize) -> (r: Option<(DnsRecord, usize)>)
    requires
        i <= s.len(),
    ensures
        match r {
            Option::Some((rec, j)) => spec_rec_obj(s@, i as int) == Option::Some((rec@, j as int))
                && i < j <= s.len(),
            Option::None => spec_rec_obj(s@, i as int) is None,
        },
{
    let mut k: usize = i;
    let mut first: bool = true;
    let mut name: Option<Vec<u8>> = Option::None;
    let mut ttl: Option<u32> = Option::None;
    let mut mo: Option<Vec<u8>> = Option::None;
    let mut co: Option<Vec<u8>> = Option::None;
    let mut pxa: Option<bool> = Option::None;
    let mut tag: Option<Vec<u8>> = Option::None;
    let mut text: Option<Vec<u8>> = Option::None;
    let mut prio: Option<u16> = Option::None;
    let mut idv: Option<Vec<u8>> = Option::None;
    let mut pxd: Option<bool> = Option::None;
    loop
        invariant
            i <= k <= s.len(),
            spec_rec_obj(s@, i as int) == spec_rec_fields(
                s@,
                k as int,
                first,
                ob(name),
                ttl,
                ob(mo),
                ob(co),
                pxa,
                ob(tag),
                ob(text),
                prio,
                ob(idv),
                pxd,
            ),
        decreases s.len() - k,
    {
        let ghost k0 = k as int;
        let a = skip_ws(s, k);
        if a >= s.len() {
            return Option::None;
        }
        if s[a] == 125 {
            match (name, ttl, mo, co, pxa, tag, text, idv, pxd) {
                (
                    Option::Some(n),
                    Option::Some(t),
                    Option::Some(m),
                    Option::Some(cr),
                    Option::Some(pa),
                    Option::Some(tg),
                    Option::Some(tx),
                    Option::Some(id),
                    Option::Some(pd),
                ) => {
                    match content_of(tg.as_slice(), tx, prio) {
                        Option::Some(c) => {
                            let rec = DnsRecord {
                                name: n,
                                ttl: t,
                                modified_on: m,
                                created_on: cr,
                                proxiable: pa,
                                content: c,
                                id: id,
                                proxied: pd,
                            };
                            return Option::Some((rec, a + 1));
                        },
                        Option::None => {
                            return Option::None;
                        },
                    }
                },
                _ => {
                    return Option::None;
                },
            }
        }
        let b: usize;
        if first {
            b = a;
        } else {
            if s[a] != 44 {
                return Option::None;
            }
            b = skip_ws(s, a + 1);
        }
        if b >= s.len() || s[b] != 34 {
            return Option::None;
        }
        let (key, c) = match parse_jstr(s, b + 1) {
            Option::Some(p) => p,
            Option::None => {
                return Option::None;
            },
        };
        let d = skip_ws(s, c);
        if d >= s.len() || s[d] != 58 {
            return Option::None;
        }
        let e0 = skip_ws(s, d + 1);
        proof {
            reveal_strlit("name");
            reveal_strlit("ttl");
            reveal_strlit("modified_on");
            reveal_strlit("created_on");
            reveal_strlit("proxiable");
            reveal_strlit("type");
            reveal_strlit("content");
            reveal_strlit("priority");
            reveal_strlit("id");
            reveal_strlit("proxied");
        }
        if bytes_eq(key.as_slice(), lit_bytes("name").as_slice()) {
            if name.is_some() || e0 >= s.len() || s[e0] != 34 {
                return Option::None;
            }
            match parse_jstr(s, e0 + 1) {
                Option::Some((v, f)) => {
                    name = Option::Some(v);
                    first = false;
                    k = f;
                    proof {
                        assert(adv(s@, k0, f as int) == f as int);
                    }
                },
                Option::None => {
                    return Option::None;
                },
            }
        } else if bytes_eq(key.as_slice(), lit_bytes("ttl").as_slice()) {
            if ttl.is_some() {
                return Option::None;
            }
            match parse_u32_num(s, e0) {
                Option::Some((v, f)) => {
                    ttl = Option::Some(v);
                    first = false;
                    k = f;
                    proof {
                        assert(adv(s@, k0, f as int) == f as int);
                    }
                },
                Option::None => {
                    return Option::None;
                },
            }
        } else if bytes_eq(key.as_slice(), lit_bytes("modified_on").as_slice()) {
            if mo.is_some() || e0 >= s.len() || s[e0] != 34 {
                return Option::None;
            }
            match parse_jstr(s, e0 + 1) {
                Option::Some((v, f)) => {
                    mo = Option::Some(v);
                    first = false;
                    k = f;
                    proof {
                        assert(adv(s@, k0, f as int) == f as int);
                    }
                },
                Option::None => {
                    return Option::None;
                },
            }
        } else if bytes_eq(key.as_slice(), lit_bytes("created_on").as_slice()) {
            if co.is_some() || e0 >= s.len() || s[e0] != 34 {
                return Option::None;
            }
            match parse_jstr(s, e0 + 1) {
                Option::Some((v, f)) => {
                    co = Option::Some(v);
                    first = false;
                    k = f;
                    proof {
                        assert(adv(s@, k0, f as int) == f as int);
                    }
                },
                Option::None => {
                    return Option::None;
                },
            }
        } else if bytes_eq(key.as_slice(), lit_bytes("proxiable").as_slice()) {
            if pxa.is_some() {
                return Option::None;
            }
            match parse_bool(s, e0) {
                Option::Some((v, f)) => {
                    pxa = Option::Some(v);
                    first = false;
                    k = f;
                    proof {
                        assert(adv(s@, k0, f as int) == f as int);
                    }
                },
                Option::None => {
                    return Option::None;
                },
            }
        } else if bytes_eq(key.as_slice(), lit_bytes("type").as_slice()) {
            if tag.is_some() || e0 >= s.len() || s[e0] != 34 {
                return Option::None;
            }
            match parse_jstr(s, e0 + 1) {
                Option::Some((v, f)) => {
                    tag = Option::Some(v);
                    first = false;
                    k = f;
                    proof {
                        assert(adv(s@, k0, f as int) == f as int);
                    }
                },
                Option::None => {
                    return Option::None;
                },
            }
        } else if bytes_eq(key.as_slice(), lit_bytes("content").as_slice()) {
            if text.is_some() || e0 >= s.len() || s[e0] != 34 {
                return Option::None;
            }
            match parse_jstr(s, e0 + 1) {
                Option::Some((v, f)) => {
                    text = Option::Some(v);
                    first = false;
                    k = f;
                    proof {
                        assert(adv(s@, k0, f as int) == f as int);
                    }
                },
                Option::None => {
                    return Option::None;
                },
            }
        } else if bytes_eq(key.as_slice(), lit_bytes("priority").as_slice()) {
            if prio.is_some() {
                return Option::None;
            }
            match parse_u16_num(s, e0) {
                Option::Some((v, f)) => {
                    prio = Option::Some(v);
                    first = false;
                    k = f;
                    proof {
                        assert(adv(s@, k0, f as int) == f as int);
                    }
                },
                Option::None => {
                    return Option::None;
                },
            }
        } else if bytes_eq(key.as_slice(), lit_bytes("id").as_slice()) {
            if idv.is_some() || e0 >= s.len() || s[e0] != 34 {
                return Option::None;
            }
            match parse_jstr(s, e0 + 1) {
                Option::Some((v, f)) => {
                    idv = Option::Some(v);
                    first = false;
                    k = f;
                    proof {
                        assert(adv(s@, k0, f as int) == f as int);
                    }
                },
                Option::None => {
                    return Option::None;
                },
            }
        } else if bytes_eq(key.as_slice(), lit_bytes("proxied").as_slice()) {
            if pxd.is_some() {
                return Option::None;
            }
            match parse_bool(s, e0) {
                Option::Some((v, f)) => {
                    pxd = Option::Some(v);
                    first = false;
                    k = f;
                    proof {
                        assert(adv(s@, k0, f as int) == f as int);
                    }
                },
                Option::None => {
                    return Option::None;
                },
            }
        } else {
            match skip_value(s, e0) {
                Option::Some(f) => {
                    first = false;
                    k = f;
                    proof {
                        assert(adv(s@, k0, f as int) == f as int);
                    }
                },
                Option::None => {
                    return Option::None;
                },
            }
        }
    }
}

/// Read the elements of an array of record objects, from just after the
/// opening bracket; `acc` carries the records read so far, in order.
pub open spec fn spec_recs_arr(s: Seq<u8>, i: int, first: bool, acc: Seq<DnsRecordV>) -> Option<
    (Seq<DnsRecordV>, int),
>
    decreases s.len() - i,
{
    let a = spec_ws(s, i);
    if i < 0 || a >= s.len() {
        Option::None
    } else if s[a] == 93 {
        Option::Some((acc, a + 1))
    } else {
        let b = if first {
            a
        } else if s[a] == 44 {
            spec_ws(s, a + 1)
        } else {
            -1
        };
        if b < 0 || b >= s.len() || s[b] != 123 {
            Option::None
        } else {
            match spec_rec_obj(s, b + 1) {
                Option::None => Option::None,
                Option::Some((rec, f)) => spec_recs_arr(s, adv(s, i, f), false, acc.push(rec)),
            }
        }
    }
}

/// Parse an array of record objects, from just after the opening bracket.
fn parse_recs_arr(s: &[u8], i: usize) -> (r: Option<(Vec<DnsRecord>, usize)>)
    requires
        i <= s.len(),
    ensures
        match r {
            Option::Some((rs, j)) => spec_recs_arr(s@, i as int, true, Seq::empty())
                == Option::Some((crate::cf_base::records_view(rs@), j as int)) && i < j <= s.len(),
            Option::None => spec_recs_arr(s@, i as int, true, Seq::empty()) is None,
        },
{
    let mut k: usize = i;
    let mut first: bool = true;
    let mut acc: Vec<DnsRecord> = Vec::new();
    proof {
        assert(crate::cf_base::records_view(acc@) =~= Seq::<DnsRecordV>::empty());
    }
    loop
        invariant
            i <= k <= s.len(),
            spec_recs_arr(s@, i as int, true, Seq::empty()) == spec_recs_arr(
                s@,
                k as int,
                first,
                crate::cf_base::records_view(acc@),
            ),
        decreases s.len() - k,
    {
        let ghost k0 = k as int;
        let a = skip_ws(s, k);
        if a >= s.len() {
            return Option::None;
        }
        if s[a] == 93 {
            return Option::Some((acc, a + 1));
        }
        let b: usize;
        if first {
            b = a;
        } else {
            if s[a] != 44 {
                return Option::None;
            }
            b = skip_ws(s, a + 1);
        }
        if b >= s.len() || s[b] != 123 {
            return Option::None;
        }
        match parse_record_obj(s, b + 1) {
            Option::Some((rec, f)) => {
                let ghost acc0 = crate::cf_base::records_view(acc@);
                let ghost rv = rec@;
                acc.push(rec);
                first = false;
                k = f;
                proof {
                    assert(adv(s@, k0, f as int) == f as int);
                    assert(crate::cf_base::records_view(acc@) =~= acc0.push(rv));
                }
            },
            Option::None => {
                return Option::None;
            },
        }
    }
}


/// No-slot record fields entry point, shared by array and envelope specs.
pub open spec fn spec_rec_obj(s: Seq<u8>, i: int) -> Option<(DnsRecordV, int)> {
    spec_rec_fields(
        s,
        i,
        true,
        Option::None,
        Option::None,
        Option::None,
        Option::None,
        Option::None,
        Option::None,
        Option::None,
        Option::None,
        Option::None,
        Option::None,
    )
}

/// Read the fields of a success envelope whose result is one record,
/// from just after its opening brace: `result`, `messages` and `errors`
/// must be present by the closing brace, `result_info` may be; the raw
/// text of `result_info` and `messages` is captured verbatim.
pub open spec fn spec_recenv_fields(
    s: Seq<u8>,
    i: int,
    first: bool,
    result: Option<DnsRecordV>,
    ri: Option<Seq<u8>>,
    msgs: Option<Seq<u8>>,
    errs: Option<Seq<ApiErrorV>>,
) -> Option<(ApiSuccessV<DnsRecordV>, int)>
    decreases s.len() - i,
{
    let a = spec_ws(s, i);
    if i < 0 || a >= s.len() {
        Option::None
    } else if s[a] == 125 {
        match (result, msgs, errs) {
            (Option::Some(rv), Option::Some(m), Option::Some(es)) => Option::Some(
                (
                    ApiSuccessV { result: rv, result_info: ri, messages: m, errors: es },
                    a + 1,
                ),
            ),
            _ => Option::None,
        }
    } else {
        let b = if first {
            a
        } else if s[a] == 44 {
            spec_ws(s, a + 1)
        } else {
            -1
        };
        if b < 0 || b >= s.len() || s[b] != 34 {
            Option::None
        } else {
            match spec_jstr(s, b + 1, Seq::empty()) {
                Option::None => Option::None,
                Option::Some((k, c)) => {
                    let d = spec_ws(s, c);
                    if d >= s.len() || s[d] != 58 {
                        Option::None
                    } else {
                        let e = spec_ws(s, d + 1);
                        if k == ascii_of("result"@) {
                            if result is Some || e >= s.len() || s[e] != 123 {
                                Option::None
                            } else {
                                match spec_rec_obj(s, e + 1) {
                                    Option::None => Option::None,
                                    Option::Some((rv, f)) => spec_recenv_fields(
                                        s,
                                        adv(s, i, f),
                                        false,
                                        Option::Some(rv),
                                        ri,
                                        msgs,
                                        errs,
                                    ),
                                }
                            }
                        } else if k == ascii_of("result_info"@) {
                            if ri is Some {
                                Option::None
                            } else {
                                match spec_skip_value(s, e) {
                                    Option::None => Option::None,
                                    Option::Some(f) => spec_recenv_fields(
                                        s,
                                        adv(s, i, f),
                                        false,
                                        result,
                                        Option::Some(s.subrange(e, f)),
                                        msgs,
                                        errs,
                                    ),
                                }
                            }
                        } else if k == ascii_of("messages"@) {
                            if msgs is Some {
                                Option::None
                            } else {
                                match spec_skip_value(s, e) {
                                    Option::None => Option::None,
                                    Option::Some(f) => spec_recenv_fields(
                                        s,
                                        adv(s, i, f),
                                        false,
                                        result,
                                        ri,
                                        Option::Some(s.subrange(e, f)),
                                        errs,
                                    ),
                                }
                            }
                        } else if k == ascii_of("errors"@) {
                            if errs is Some || e >= s.len() || s[e] != 91 {
                                Option::None
                            } else {
                                match spec_errs_arr(s, e + 1, true, Seq::empty()) {
                                    Option::None => Option::None,
                                    Option::Some((es, f)) => spec_recenv_fields(
                                        s,
                                        adv(s, i, f),
                                        false,
                                        result,
                                        ri,
                                        msgs,
                                        Option::Some(es),
                                    ),
                                }
                            }
                        } else {
                            match spec_skip_value(s, e) {
                                Option::None => Option::None,
                                Option::Some(f) => spec_recenv_fields(
                                    s,
                                    adv(s, i, f),
                                    false,
                                    result,
                                    ri,
                                    msgs,
                                    errs,
                                ),
                            }
                        }
                    }
                },
            }
        }
    }
}

/// Read the fields of a success envelope whose result is a record list;
/// the shape is that of `spec_recenv_fields` with an array result.
pub open spec fn spec_listenv_fields(
    s: Seq<u8>,
    i: int,
    first: bool,
    result: Option<Seq<DnsRecordV>>,
    ri: Option<Seq<u8>>,
    msgs: Option<Seq<u8>>,
    errs: Option<Seq<ApiErrorV>>,
) -> Option<(ApiSuccessV<Seq<DnsRecordV>>, int)>
    decreases s.len() - i,
{
    let a = spec_ws(s, i);
    if i < 0 || a >= s.len() {
        Option::None
    } else if s[a] == 125 {
        match (result, msgs, errs) {
            (Option::Some(rv), Option::Some(m), Option::Some(es)) => Option::Some(
                (
                    ApiSuccessV { result: rv, result_info: ri, messages: m, errors: es },
                    a + 1,
                ),
            ),
            _ => Option::None,
        }
    } else {
        let b = if first {
            a
        } else if s[a] == 44 {
            spec_ws(s, a + 1)
        } else {
            -1
        };
        if b < 0 || b >= s.len() || s[b] != 34 {
            Option::None
        } else {
            match spec_jstr(s, b + 1, Seq::empty()) {
                Option::None => Option::None,
                Option::Some((k, c)) => {
                    let d = spec_ws(s, c);
                    if d >= s.len() || s[d] != 58 {
                        Option::None
                    } else {
                        let e = spec_ws(s, d + 1);
                        if k == ascii_of("result"@) {
                            if result is Some || e >= s.len() || s[e] != 91 {
                                Option::None
                            } else {
                                match spec_recs_arr(s, e + 1, true, Seq::empty()) {
                                    Option::None => Option::None,
                                    Option::Some((rv, f)) => spec_listenv_fields(
                                        s,
                                        adv(s, i, f),
                                        false,
                                        Option::Some(rv),
                                        ri,
                                        msgs,
                                        errs,
                                    ),
                                }
                            }
                        } else if k == ascii_of("result_info"@) {
                            if ri is Some {
                                Option::None
                            } else {
                                match spec_skip_value(s, e) {
                                    Option::None => Option::None,
                                    Option::Some(f) => spec_listenv_fields(
                                        s,
                                        adv(s, i, f),
                                        false,
                                        result,
                                        Option::Some(s.subrange(e, f)),
                                        msgs,
                                        errs,
                                    ),
                                }
                            }
                        } else if k == ascii_of("messages"@) {
                            if msgs is Some {
                                Option::None
                            } else {
                                match spec_skip_value(s, e) {
                                    Option::None => Option::None,
                                    Option::Some(f) => spec_listenv_fields(
                                        s,
                                        adv(s, i, f),
                                        false,
                                        result,
                                        ri,
                                        Option::Some(s.subrange(e, f)),
                                        errs,
                                    ),
                                }
                            }
                        } else if k == ascii_of("errors"@) {
                            if errs is Some || e >= s.len() || s[e] != 91 {
                                Option::None
                            } else {
                                match spec_errs_arr(s, e + 1, true, Seq::empty()) {
                                    Option::None => Option::None,
                                    Option::Some((es, f)) => spec_listenv_fields(
                                        s,
                                        adv(s, i, f),
                                        false,
                                        result,
                                        ri,
                                        msgs,
                                        Option::Some(es),
                                    ),
                                }
                            }
                        } else {
                            match spec_skip_value(s, e) {
                                Option::None => Option::None,
                                Option::Some(f) => spec_listenv_fields(
                                    s,
                                    adv(s, i, f),
                                    false,
                                    result,
                                    ri,
                                    msgs,
                                    errs,
                                ),
                            }
                        }
                    }
                },
            }
        }
    }
}

/// Read a whole single-record success document: optional whitespace, one
/// envelope object, optional whitespace, end.
pub open spec fn spec_parse_record_env_doc(s: Seq<u8>) -> Option<ApiSuccessV<DnsRecordV>> {
    let a = spec_ws(s, 0);
    if a >= s.len() || s[a] != 123 {
        Option::None
    } else {
        match spec_recenv_fields(s, a + 1, true, Option::None, Option::None, Option::None, Option::None) {
            Option::None => Option::None,
            Option::Some((d, j)) => if spec_ws(s, j) == s.len() {
                Option::Some(d)
            } else {
                Option::None
            },
        }
    }
}

/// Read a whole record-list success document: optional whitespace, one
/// envelope object, optional whitespace, end.
pub open spec fn spec_parse_list_env_doc(s: Seq<u8>) -> Option<ApiSuccessV<Seq<DnsRecordV>>> {
    let a = spec_ws(s, 0);
    if a >= s.len() || s[a] != 123 {
        Option::None
    } else {
        match spec_listenv_fields(s, a + 1, true, Option::None, Option::None, Option::None, Option::None) {
            Option::None => Option::None,
            Option::Some((d, j)) => if spec_ws(s, j) == s.len() {
                Option::Some(d)
            } else {
                Option::None
            },
        }
    }
}

/// The view of a record-list envelope, with the records viewed deeply.
pub open spec fn list_env_view(env: ApiSuccess<Vec<DnsRecord>>) -> ApiSuccessV<Seq<DnsRecordV>> {
    ApiSuccessV {
        result: crate::cf_base::records_view(env.result@),
        result_info: ob(env.result_info),
        messages: env.messages@,
        errors: crate::cf_base::errors_view(env.errors@),
    }
}

/// One step through a single-record envelope's fields: either the close
/// of the object, or one field consumed, or a refusal.
pub enum RecEnvStep {
    Done(ApiSuccess<DnsRecord>, usize),
    More(usize),
    Fail,
}

/// Consume one field (or the close) of a single-record envelope.
#[verifier::rlimit(100)]
fn recenv_step(
    s: &[u8],
    k: usize,
    first: bool,
    result: &mut Option<DnsRecord>,
    ri: &mut Option<Vec<u8>>,
    msgs: &mut Option<Vec<u8>>,
    errs: &mut Option<Vec<ApiError>>,
) -> (r: RecEnvStep)
    requires
        k <= s.len(),
    ensures
        match r {
            RecEnvStep::Done(env, j) => k < j <= s.len() && spec_recenv_fields(
                s@,
                k as int,
                first,
                orec(*old(result)),
                ob(*old(ri)),
                ob(*old(msgs)),
                oerrs(*old(errs)),
            ) == Option::Some((env@, j as int)),
            RecEnvStep::More(j) => k < j <= s.len() && spec_recenv_fields(
                s@,
                k as int,
                first,
                orec(*old(result)),
                ob(*old(ri)),
                ob(*old(msgs)),
                oerrs(*old(errs)),
            ) == spec_recenv_fields(
                s@,
                j as int,
                false,
                orec(*final(result)),
                ob(*final(ri)),
                ob(*final(msgs)),
                oerrs(*final(errs)),
            ),
            RecEnvStep::Fail => spec_recenv_fields(
                s@,
                k as int,
                first,
                orec(*old(result)),
                ob(*old(ri)),
                ob(*old(msgs)),
                oerrs(*old(errs)),
            ) is None,
        },
{
    proof {
        reveal_strlit("result");
        reveal_strlit("result_info");
        reveal_strlit("messages");
        reveal_strlit("errors");
    }
    let w = skip_ws(s, k);
    if w >= s.len() {
        return RecEnvStep::Fail;
    }
    if s[w] == 125 {
        let rv = match result.take() {
            Option::Some(rv) => rv,
            Option::None => {
                return RecEnvStep::Fail;
            },
        };
        let m = match msgs.take() {
            Option::Some(m) => m,
            Option::None => {
                return RecEnvStep::Fail;
            },
        };
        let es = match errs.take() {
            Option::Some(es) => es,
            Option::None => {
                return RecEnvStep::Fail;
            },
        };
        let env = ApiSuccess { result: rv, result_info: ri.take(), messages: m, errors: es };
        proof {
            assert(env@.errors =~= crate::cf_base::errors_view(env.errors@));
        }
        return RecEnvStep::Done(env, w + 1);
    }
    let b: usize;
    if first {
        b = w;
    } else {
        if s[w] != 44 {
            return RecEnvStep::Fail;
        }
        b = skip_ws(s, w + 1);
    }
    if b >= s.len() || s[b] != 34 {
        return RecEnvStep::Fail;
    }
    let (key, c) = match parse_jstr(s, b + 1) {
        Option::Some(p) => p,
        Option::None => {
            return RecEnvStep::Fail;
        },
    };
    let d = skip_ws(s, c);
    if d >= s.len() || s[d] != 58 {
        return RecEnvStep::Fail;
    }
    let e0 = skip_ws(s, d + 1);
    if bytes_eq(key.as_slice(), lit_bytes("result").as_slice()) {
        if result.is_some() || e0 >= s.len() || s[e0] != 123 {
            return RecEnvStep::Fail;
        }
        match parse_record_obj(s, e0 + 1) {
            Option::Some((rec, f)) => {
                *result = Option::Some(rec);
                proof {
                    assert(adv(s@, k as int, f as int) == f as int);
                }
                RecEnvStep::More(f)
            },
            Option::None => RecEnvStep::Fail,
        }
    } else if bytes_eq(key.as_slice(), lit_bytes("result_info").as_slice()) {
        if ri.is_some() {
            return RecEnvStep::Fail;
        }
        match skip_value(s, e0) {
            Option::Some(f) => {
                let cap = crate::text::copy_bytes(vstd::slice::slice_subrange(s, e0, f));
                *ri = Option::Some(cap);
                proof {
                    assert(adv(s@, k as int, f as int) == f as int);
                }
                RecEnvStep::More(f)
            },
            Option::None => RecEnvStep::Fail,
        }
    } else if bytes_eq(key.as_slice(), lit_bytes("messages").as_slice()) {
        if msgs.is_some() {
            return RecEnvStep::Fail;
        }
        match skip_value(s, e0) {
            Option::Some(f) => {
                let cap = crate::text::copy_bytes(vstd::slice::slice_subrange(s, e0, f));
                *msgs = Option::Some(cap);
                proof {
                    assert(adv(s@, k as int, f as int) == f as int);
                }
                RecEnvStep::More(f)
            },
            Option::None => RecEnvStep::Fail,
        }
    } else if bytes_eq(key.as_slice(), lit_bytes("errors").as_slice()) {
        if errs.is_some() || e0 >= s.len() || s[e0] != 91 {
            return RecEnvStep::Fail;
        }
        match parse_errs_arr(s, e0 + 1) {
            Option::Some((es, f)) => {
                *errs = Option::Some(es);
                proof {
                    assert(adv(s@, k as int, f as int) == f as int);
                }
                RecEnvStep::More(f)
            },
            Option::None => RecEnvStep::Fail,
        }
    } else {
        match skip_value(s, e0) {
            Option::Some(f) => {
                proof {
                    assert(adv(s@, k as int, f as int) == f as int);
                }
                RecEnvStep::More(f)
            },
            Option::None => RecEnvStep::Fail,
        }
    }
}

/// Parse a success envelope holding one record.  Succeeds exactly on what
/// the wire grammar admits; the raw `result_info` and `messages` values
/// are carried verbatim.
pub fn parse_record_envelope(s: &[u8]) -> (r: Option<ApiSuccess<DnsRecord>>)
    ensures
        match r {
            Option::Some(env) => spec_parse_record_env_doc(s@) == Option::Some(env@),
            Option::None => spec_parse_record_env_doc(s@) is None,
        },
{
    let a = skip_ws(s, 0);
    if a >= s.len() || s[a] != 123 {
        return Option::None;
    }
    let mut k: usize = a + 1;
    let mut first: bool = true;
    let mut result: Option<DnsRecord> = Option::None;
    let mut ri: Option<Vec<u8>> = Option::None;
    let mut msgs: Option<Vec<u8>> = Option::None;
    let mut errs: Option<Vec<ApiError>> = Option::None;
    loop
        invariant
            a + 1 <= k <= s.len(),
            a as int == spec_ws(s@, 0),
            a < s.len() && s@[a as int] == 123,
            spec_recenv_fields(
                s@,
                a + 1,
                true,
                Option::None,
                Option::None,
                Option::None,
                Option::None,
            ) == spec_recenv_fields(
                s@,
                k as int,
                first,
                orec(result),
                ob(ri),
                ob(msgs),
                oerrs(errs),
            ),
        decreases s.len() - k,
    {
        match recenv_step(s, k, first, &mut result, &mut ri, &mut msgs, &mut errs) {
            RecEnvStep::Done(env, j) => {
                let j2 = skip_ws(s, j);
                if j2 != s.len() {
                    return Option::None;
                }
                return Option::Some(env);
            },
            RecEnvStep::More(j) => {
                k = j;
                first = false;
            },
            RecEnvStep::Fail => {
                return Option::None;
            },
        }
    }
}

/// Parse a success envelope holding a record list.  Succeeds exactly on
/// what the wire grammar admits; the raw `result_info` and `messages`
/// values are carried verbatim.
#[verifier::rlimit(100)]
pub fn parse_list_envelope(s: &[u8]) -> (r: Option<ApiSuccess<Vec<DnsRecord>>>)
    ensures
        match r {
            Option::Some(env) => spec_parse_list_env_doc(s@) == Option::Some(list_env_view(env)),
            Option::None => spec_parse_list_env_doc(s@) is None,
        },
{
    let a = skip_ws(s, 0);
    if a >= s.len() || s[a] != 123 {
        return Option::None;
    }
    let mut k: usize = a + 1;
    let mut first: bool = true;
    let mut result: Option<Vec<DnsRecord>> = Option::None;
    let mut ri: Option<Vec<u8>> = Option::None;
    let mut msgs: Option<Vec<u8>> = Option::None;
    let mut errs: Option<Vec<ApiError>> = Option::None;
    loop
        invariant
            a + 1 <= k <= s.len(),
            a as int == spec_ws(s@, 0),
            a < s.len() && s@[a as int] == 123,
            spec_listenv_fields(
                s@,
                a + 1,
                true,
                Option::None,
                Option::None,
                Option::None,
                Option::None,
            ) == spec_listenv_fields(
                s@,
                k as int,
                first,
                orecs(result),
                ob(ri),
                ob(msgs),
                oerrs(errs),
            ),
        decreases s.len() - k,
    {
        let ghost k0 = k as int;
        let w = skip_ws(s, k);
        if w >= s.len() {
            return Option::None;
        }
        if s[w] == 125 {
            match (result, msgs, errs) {
                (Option::Some(rv), Option::Some(m), Option::Some(es)) => {
                    let j = skip_ws(s, w + 1);
                    if j != s.len() {
                        return Option::None;
                    }
                    let env = ApiSuccess {
                        result: rv,
                        result_info: ri,
                        messages: m,
                        errors: es,
                    };
                    return Option::Some(env);
                },
                _ => {
                    return Option::None;
                },
            }
        }
        let b: usize;
        if first {
            b = w;
        } else {
            if s[w] != 44 {
                return Option::None;
            }
            b = skip_ws(s, w + 1);
        }
        if b >= s.len() || s[b] != 34 {
            return Option::None;
        }
        let (key, c) = match parse_jstr(s, b + 1) {
            Option::Some(p) => p,
            Option::None => {
                return Option::None;
            },
        };
        let d = skip_ws(s, c);
        if d >= s.len() || s[d] != 58 {
            return Option::None;
        }
        let e0 = skip_ws(s, d + 1);
        proof {
            reveal_strlit("result");
            reveal_strlit("result_info");
            reveal_strlit("messages");
            reveal_strlit("errors");
        }
        if bytes_eq(key.as_slice(), lit_bytes("result").as_slice()) {
            if result.is_some() || e0 >= s.len() || s[e0] != 91 {
                return Option::None;
            }
            match parse_recs_arr(s, e0 + 1) {
                Option::Some((rs, f)) => {
                    result = Option::Some(rs);
                    first = false;
                    k = f;
                    proof {
                        assert(adv(s@, k0, f as int) == f as int);
                    }
                },
                Option::None => {
                    return Option::None;
                },
            }
        } else if bytes_eq(key.as_slice(), lit_bytes("result_info").as_slice()) {
            if ri.is_some() {
                return Option::None;
            }
            match skip_value(s, e0) {
                Option::Some(f) => {
                    let cap = crate::text::copy_bytes(
                        vstd::slice::slice_subrange(s, e0, f),
                    );
                    ri = Option::Some(cap);
                    first = false;
                    k = f;
                    proof {
                        assert(adv(s@, k0, f as int) == f as int);
                    }
                },
                Option::None => {
                    return Option::None;
                },
            }
        } else if bytes_eq(key.as_slice(), lit_bytes("messages").as_slice()) {
            if msgs.is_some() {
                return Option::None;
            }
            match skip_value(s, e0) {
                Option::Some(f) => {
                    let cap = crate::text::copy_bytes(
                        vstd::slice::slice_subrange(s, e0, f),
                    );
                    msgs = Option::Some(cap);
                    first = false;
                    k = f;
                    proof {
                        assert(adv(s@, k0, f as int) == f as int);
                    }
                },
                Option::None => {
                    return Option::None;
                },
            }
        } else if bytes_eq(key.as_slice(), lit_bytes("errors").as_slice()) {
            if errs.is_some() || e0 >= s.len() || s[e0] != 91 {
                return Option::None;
            }
            match parse_errs_arr(s, e0 + 1) {
                Option::Some((es, f)) => {
                    errs = Option::Some(es);
                    first = false;
                    k = f;
                    proof {
                        assert(adv(s@, k0, f as int) == f as int);
                    }
                },
                Option::None => {
                    return Option::None;
                },
            }
        } else {
            match skip_value(s, e0) {
                Option::Some(f) => {
                    first = false;
                    k = f;
                    proof {
                        assert(adv(s@, k0, f as int) == f as int);
                    }
                },
                Option::None => {
                    return Option::None;
                },
            }
        }
    }
}

} // verus!\n