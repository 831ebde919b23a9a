//! Small verified text builders: decimal rendering of counters and sizes,
//! and the base64 encoding of `data:` URLs.

use vstd::prelude::*;
use vstd::string::StringExecFns;

verus! {

/// The character of a decimal digit.
pub open spec fn digit_char(d: nat) -> char {
    if d == 0 { '0' }
    else if d == 1 { '1' }
    else if d == 2 { '2' }
    else if d == 3 { '3' }
    else if d == 4 { '4' }
    else if d == 5 { '5' }
    else if d == 6 { '6' }
    else if d == 7 { '7' }
    else if d == 8 { '8' }
    else { '9' }
}

/// The decimal representation of `n`, without sign or leading zeros
/// (zero is written `0`), as Rust's `Display` for unsigned integers writes it.
pub open spec fn decimal(n: nat) -> Seq<char>
    decreases n,
{
    if n < 10 {
        seq![digit_char(n)]
    } else {
        decimal(n / 10).push(digit_char(n % 10))
    }
}

fn digit_str(d: u64) -> (s: &'static str)
    requires
        d < 10,
    ensures
        s@ == seq![digit_char(d as nat)],
{
    proof {
        reveal_strlit("0");
        reveal_strlit("1");
        reveal_strlit("2");
        reveal_strlit("3");
        reveal_strlit("4");
        reveal_strlit("5");
        reveal_strlit("6");
        reveal_strlit("7");
        reveal_strlit("8");
        reveal_strlit("9");
    }
    if d == 0 { "0" }
    else if d == 1 { "1" }
    else if d == 2 { "2" }
    else if d == 3 { "3" }
    else if d == 4 { "4" }
    else if d == 5 { "5" }
    else if d == 6 { "6" }
    else if d == 7 { "7" }
    else if d == 8 { "8" }
    else { "9" }
}

/// Appends the decimal representation of `n` to `out`.
pub fn push_decimal(out: &mut String, n: u64)
    ensures
        final(out)@ == old(out)@ + decimal(n as nat),
    decreases n,
{
    if n < 10 {
        out.append(digit_str(n));
    } else {
        push_decimal(out, n / 10);
        out.append(digit_str(n % 10));
    }
}

/// Renders `n` in decimal.
pub fn decimal_string(n: u64) -> (s: String)
    ensures
        s@ == decimal(n as nat),
{
    let mut s = String::new();
    push_decimal(&mut s, n);
    s
}

/// The base64 alphabet of RFC 4648: the digit of value `i` is the
/// character at position `i`.
pub const BASE64_ALPHABET: &'static str = "ABCDEFGHIJKLMNOPQRSTUVWXYZabcdefghijklmnopqrstuvwxyz0123456789+/";

/// The base64 digit of a value below 64.
pub open spec fn base64_digit(v: int) -> char {
    BASE64_ALPHABET@[v]
}

/// The four digits of the 24-bit value `n`.
pub open spec fn base64_digits(n: int) -> Seq<char> {
    seq![
        base64_digit(n / 262144),
        base64_digit((n / 4096) % 64),
        base64_digit((n / 64) % 64),
        base64_digit(n % 64),
    ]
}

/// The four digits of the three bytes `s[i]`, `s[i + 1]`, `s[i + 2]`.
pub open spec fn base64_quad(s: Seq<u8>, i: int) -> Seq<char> {
    base64_digits(s[i] * 65536 + s[i + 1] * 256 + s[i + 2])
}

/// The digits of the first `k` whole groups of three bytes of `s`.
pub open spec fn base64_groups(s: Seq<u8>, k: nat) -> Seq<char>
    decreases k,
{
    if k == 0 {
        seq![]
    } else {
        base64_groups(s, (k - 1) as nat) + base64_quad(s, 3 * (k - 1))
    }
}

/// The padded digits of the one or two bytes after the whole groups.
pub open spec fn base64_tail(s: Seq<u8>) -> Seq<char> {
    let i = s.len() - s.len() % 3;
    if s.len() % 3 == 1 {
        let n = s[i] * 65536;
        seq![base64_digit(n / 262144), base64_digit((n / 4096) % 64), '=', '=']
    } else if s.len() % 3 == 2 {
        let n = s[i] * 65536 + s[i + 1] * 256;
        seq![
            base64_digit(n / 262144),
            base64_digit((n / 4096) % 64),
            base64_digit((n / 64) % 64),
            '=',
        ]
    } else {
        seq![]
    }
}

/// The standard, padded base64 encoding of `s` (RFC 4648, section 4).
pub open spec fn base64(s: Seq<u8>) -> Seq<char> {
    base64_groups(s, s.len() / 3) + base64_tail(s)
}

fn push_base64_digit(out: &mut String, v: u32)
    requires
        v < 64,
    ensures
        final(out)@ == old(out)@.push(base64_digit(v as int)),
{
    proof {
        reveal_strlit("ABCDEFGHIJKLMNOPQRSTUVWXYZabcdefghijklmnopqrstuvwxyz0123456789+/");
    }
    let i = v as usize;
    let d = BASE64_ALPHABET.substring_char(i, i + 1);
    out.append(d);
    assert(d@ =~= seq![base64_digit(v as int)]);
}

fn push_base64_digits(out: &mut String, v: u32)
    requires
        v < 16777216,
    ensures
        final(out)@ == old(out)@ + base64_digits(v as int),
{
    push_base64_digit(out, v / 262144);
    push_base64_digit(out, (v / 4096) % 64);
    push_base64_digit(out, (v / 64) % 64);
    push_base64_digit(out, v % 64);
    assert(out@ =~= old(out)@ + base64_digits(v as int));
}

/// Appends the base64 encoding of `data` to `out`.
pub fn push_base64(out: &mut String, data: &[u8])
    ensures
        final(out)@ == old(out)@ + base64(data@),
{
    let n = data.len();
    let mut i: usize = 0;
    let mut k: usize = 0;
    proof {
        reveal_strlit("=");
    }
    while n - i >= 3
        invariant
            n == data@.len(),
            i == 3 * k,
            i <= n,
            out@ == old(out)@ + base64_groups(data@, k as nat),
        decreases n - i,
    {
        let v: u32 = data[i] as u32 * 65536 + data[i + 1] as u32 * 256 + data[i + 2] as u32;
        push_base64_digits(out, v);
        proof {
            assert(base64_groups(data@, (k + 1) as nat) == base64_groups(data@, k as nat)
                + base64_quad(data@, 3 * k));
            assert(out@ =~= old(out)@ + base64_groups(data@, (k + 1) as nat));
        }
        i = i + 3;
        k = k + 1;
    }
    assert(k == n / 3 && i == n - n % 3);
    if n - i == 1 {
        let v: u32 = data[i] as u32 * 65536;
        push_base64_digit(out, v / 262144);
        push_base64_digit(out, (v / 4096) % 64);
        out.append("==");
        proof {
            reveal_strlit("==");
        }
    } else if n - i == 2 {
        let v: u32 = data[i] as u32 * 65536 + data[i + 1] as u32 * 256;
        push_base64_digit(out, v / 262144);
        push_base64_digit(out, (v / 4096) % 64);
        push_base64_digit(out, (v / 64) % 64);
        out.append("=");
    }
    assert(out@ =~= old(out)@ + base64(data@));
}

} // verus!
