//! What goes on the wire: the command lines of the line-oriented TCP
//! protocol, the repeating payloads written by uploads, and the `host:port`
//! form of a raw TCP endpoint.
use vstd::prelude::*;
use vstd::string::*;
use crate::format::{append_decimal, decimal};

verus! {

/// The transfer size declared in download and upload commands. The phase is
/// ended by the stop signal, not by reaching it.
pub const DECLARED_TRANSFER_SIZE: u64 = 15_000_000_000;

/// Length of one chunk of an HTTP upload body.
pub const HTTP_CHUNK_LEN: usize = 32768;

/// `DOWNLOAD <size>\n`
pub open spec fn download_command_text(size: nat) -> Seq<char> {
    "DOWNLOAD "@ + decimal(size) + "\n"@
}

/// `UPLOAD <size> 0\n`
pub open spec fn upload_command_text(size: nat) -> Seq<char> {
    "UPLOAD "@ + decimal(size) + " 0\n"@
}

pub fn download_command(size: u64) -> (r: String)
    ensures
        r@ == download_command_text(size as nat),
{
    let mut out = String::from_str("DOWNLOAD ");
    append_decimal(&mut out, size as u128);
    out.append("\n");
    out
}

pub fn upload_command(size: u64) -> (r: String)
    ensures
        r@ == upload_command_text(size as nat),
{
    let mut out = String::from_str("UPLOAD ");
    append_decimal(&mut out, size as u128);
    out.append(" 0\n");
    out
}

/// The latency command of the HTTP-protocol family.
pub fn ping_command() -> (r: String)
    ensures
        r@ == "PING 0\n"@,
{
    String::from_str("PING 0\n")
}

/// Byte `j` of the 64-byte HTTP upload pattern
/// `0123456789AaBbCc...YyZz-=`.
pub open spec fn http_pattern_byte(j: int) -> u8 {
    if j < 10 {
        (48 + j) as u8
    } else if j < 62 {
        if (j - 10) % 2 == 0 {
            (65 + (j - 10) / 2) as u8
        } else {
            (97 + (j - 10) / 2) as u8
        }
    } else if j == 62 {
        45u8
    } else {
        61u8
    }
}

/// Byte `j` of the 32-byte raw TCP upload pattern
/// `23456789ABCDEFGHIJKLMNOPQRSTUVWX`.
pub open spec fn tcp_pattern_byte(j: int) -> u8 {
    if j < 8 {
        (50 + j) as u8
    } else {
        (65 + (j - 8)) as u8
    }
}

fn http_pattern_at(j: usize) -> (r: u8)
    requires
        j < 64,
    ensures
        r == http_pattern_byte(j as int),
{
    if j < 10 {
        48 + j as u8
    } else if j < 62 {
        if (j - 10) % 2 == 0 {
            65 + ((j - 10) / 2) as u8
        } else {
            97 + ((j - 10) / 2) as u8
        }
    } else if j == 62 {
        45
    } else {
        61
    }
}

fn tcp_pattern_at(j: usize) -> (r: u8)
    requires
        j < 32,
    ensures
        r == tcp_pattern_byte(j as int),
{
    if j < 8 {
        50 + j as u8
    } else {
        65 + (j - 8) as u8
    }
}

/// One chunk of an HTTP upload body: the 64-byte pattern 512 times.
pub fn http_upload_chunk() -> (r: Vec<u8>)
    ensures
        r@.len() == HTTP_CHUNK_LEN,
        forall|i: int| 0 <= i < r@.len() ==> #[trigger] r@[i] == http_pattern_byte(i % 64),
{
    let mut out: Vec<u8> = Vec::new();
    let mut i: usize = 0;
    while i < HTTP_CHUNK_LEN
        invariant
            i <= HTTP_CHUNK_LEN,
            out@.len() == i,
            forall|k: int| 0 <= k < i ==> #[trigger] out@[k] == http_pattern_byte(k % 64),
        decreases HTTP_CHUNK_LEN - i,
    {
        out.push(http_pattern_at(i % 64));
        i = i + 1;
    }
    out
}

/// `len` bytes of the raw TCP upload pattern, repeated.
pub fn tcp_upload_data(len: usize) -> (r: Vec<u8>)
    ensures
        r@.len() == len,
        forall|i: int| 0 <= i < r@.len() ==> #[trigger] r@[i] == tcp_pattern_byte(i % 32),
{
    let mut out: Vec<u8> = Vec::new();
    let mut i: usize = 0;
    while i < len
        invariant
            i <= len,
            out@.len() == i,
            forall|k: int| 0 <= k < i ==> #[trigger] out@[k] == tcp_pattern_byte(k % 32),
        decreases len - i,
    {
        out.push(tcp_pattern_at(i % 32));
        i = i + 1;
    }
    out
}

pub open spec fn is_digit(c: char) -> bool {
    '0' <= c && c <= '9'
}

pub open spec fn all_digits(s: Seq<char>) -> bool {
    forall|i: int| 0 <= i < s.len() ==> is_digit(#[trigger] s[i])
}

/// The value of a string of decimal digits.
pub open spec fn digits_value(s: Seq<char>) -> nat
    decreases s.len(),
{
    if s.len() == 0 {
        0
    } else {
        digits_value(s.drop_last()) * 10 + (s.last() as u32 - 48) as nat
    }
}

/// A port number as `u16`'s parser reads it: an optional `+`, then one or
/// more decimal digits whose value is at most 65535.
pub open spec fn port_spec(t: Seq<char>) -> Option<u16> {
    let d = if t.len() > 0 && t[0] == '+' {
        t.skip(1)
    } else {
        t
    };
    if d.len() > 0 && all_digits(d) && digits_value(d) <= 65535 {
        Some(digits_value(d) as u16)
    } else {
        None
    }
}

/// Index of the first `:` at or after `from`, or the length.
pub open spec fn colon_from(s: Seq<char>, from: int) -> int
    decreases s.len() - from,
{
    if from >= s.len() {
        s.len() as int
    } else if s[from] == ':' {
        from
    } else {
        colon_from(s, from + 1)
    }
}

/// The host and port of a `host:port` endpoint: the host is the text before
/// the first `:`, the port the text between it and the next `:` (or the
/// end). `None` without a `:` or when that text is not a port.
pub open spec fn host_port_spec(s: Seq<char>) -> Option<(Seq<char>, u16)> {
    let c = colon_from(s, 0);
    if c >= s.len() {
        None
    } else {
        let e = colon_from(s, c + 1);
        match port_spec(s.subrange(c + 1, e)) {
            Some(p) => Some((s.subrange(0, c), p)),
            None => None,
        }
    }
}

fn find_colon(s: &str, from: usize) -> (r: usize)
    requires
        from <= s@.len(),
    ensures
        r == colon_from(s@, from as int),
    decreases s@.len() - from,
{
    let n = s.unicode_len();
    if from >= n {
        n
    } else if s.get_char(from) == ':' {
        from
    } else {
        find_colon(s, from + 1)
    }
}

/// A longer run of digits is worth at least as much as its prefix.
proof fn lemma_digits_value_prefix(s: Seq<char>, k: int)
    requires
        0 <= k <= s.len(),
        all_digits(s),
    ensures
        digits_value(s.subrange(0, k)) <= digits_value(s),
    decreases s.len(),
{
    if k < s.len() {
        assert(s.drop_last().subrange(0, k) =~= s.subrange(0, k));
        assert(all_digits(s.drop_last())) by {
            assert forall|i: int| 0 <= i < s.drop_last().len() implies is_digit(
                #[trigger] s.drop_last()[i],
            ) by {
                assert(s.drop_last()[i] == s[i]);
            }
        }
        lemma_digits_value_prefix(s.drop_last(), k);
    } else {
        assert(s.subrange(0, k) =~= s);
    }
}

/// Parses a port as `u16`'s parser does.
pub fn parse_port(t: &str) -> (r: Option<u16>)
    ensures
        r == port_spec(t@),
{
    let n = t.unicode_len();
    let start: usize = if n > 0 && t.get_char(0) == '+' {
        1
    } else {
        0
    };
    let ghost d = if t@.len() > 0 && t@[0] == '+' {
        t@.skip(1)
    } else {
        t@
    };
    proof {
        assert(d =~= t@.subrange(start as int, n as int));
    }
    if start >= n {
        return None;
    }
    let mut value: u32 = 0;
    let mut i: usize = start;
    while i < n
        invariant
            start <= i <= n,
            n == t@.len(),
            d =~= t@.subrange(start as int, n as int),
            d == (if t@.len() > 0 && t@[0] == '+' {
                t@.skip(1)
            } else {
                t@
            }),
            all_digits(t@.subrange(start as int, i as int)),
            value == digits_value(t@.subrange(start as int, i as int)),
            value <= 65535,
        decreases n - i,
    {
        let c = t.get_char(i);
        let ghost prev = t@.subrange(start as int, i as int);
        let ghost next = t@.subrange(start as int, i + 1);
        proof {
            assert(next.drop_last() =~= prev);
        }
        if c < '0' || c > '9' {
            proof {
                let k = i - start;
                assert(d[k] == c);
                assert(!is_digit(d[k]));
                assert(!all_digits(d));
            }
            return None;
        }
        value = value * 10 + (c as u32 - 48);
        proof {
            assert(next.last() == c);
            assert(value == digits_value(next));
            assert forall|k: int| 0 <= k < next.len() implies is_digit(#[trigger] next[k]) by {
                if k < prev.len() {
                    assert(next[k] == prev[k]);
                }
            }
        }
        if value > 65535 {
            proof {
                if all_digits(d) {
                    let k = i + 1 - start;
                    assert(d.subrange(0, k) =~= next);
                    lemma_digits_value_prefix(d, k);
                    assert(digits_value(d) > 65535);
                }
            }
            return None;
        }
        i = i + 1;
    }
    proof {
        assert(t@.subrange(start as int, i as int) =~= d);
    }
    Some(value as u16)
}

/// Splits a raw TCP endpoint written `host:port`.
pub fn split_host_port(endpoint: &str) -> (r: Option<(String, u16)>)
    ensures
        match (r, host_port_spec(endpoint@)) {
            (Some((h, p)), Some((sh, sp))) => h@ == sh && p == sp,
            (None, None) => true,
            _ => false,
        },
{
    let n = endpoint.unicode_len();
    let c = find_colon(endpoint, 0);
    if c >= n {
        return None;
    }
    let e = find_colon(endpoint, c + 1);
    proof {
        lemma_colon_from_bounds(endpoint@, c + 1);
    }
    let port_text = endpoint.substring_char(c + 1, e);
    match parse_port(port_text) {
        Some(p) => {
            proof {
                lemma_colon_from_bounds(endpoint@, 0);
            }
            let host = String::from_str(endpoint.substring_char(0, c));
            Some((host, p))
        },
        None => None,
    }
}

proof fn lemma_colon_from_bounds(s: Seq<char>, from: int)
    requires
        0 <= from <= s.len(),
    ensures
        from <= colon_from(s, from) <= s.len(),
    decreases s.len() - from,
{
    if from < s.len() && s[from] != ':' {
        lemma_colon_from_bounds(s, from + 1);
    }
}

} // verus!
