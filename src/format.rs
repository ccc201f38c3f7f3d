//! Human-scaled rendering of bit rates and latencies.
use vstd::prelude::*;
use vstd::string::*;

verus! {

/// The character of a decimal digit.
pub open spec fn digit_char(d: nat) -> char {
    if d == 0 {
        '0'
    } else if d == 1 {
        '1'
    } else if d == 2 {
        '2'
    } else if d == 3 {
        '3'
    } else if d == 4 {
        '4'
    } else if d == 5 {
        '5'
    } else if d == 6 {
        '6'
    } else if d == 7 {
        '7'
    } else if d == 8 {
        '8'
    } else {
        '9'
    }
}

/// Decimal text of a natural number, without leading zeros.
pub open spec fn decimal(n: nat) -> Seq<char>
    decreases n,
{
    if n < 10 {
        seq![digit_char(n)]
    } else {
        decimal(n / 10).push(digit_char(n % 10))
    }
}

/// The scale and unit name used for a bit rate: the largest power of 1000
/// (up to giga) that does not exceed it.
pub open spec fn bitrate_scale(bps: nat) -> nat {
    if bps < 1000 {
        1
    } else if bps < 1_000_000 {
        1000
    } else if bps < 1_000_000_000 {
        1_000_000
    } else {
        1_000_000_000
    }
}

pub open spec fn bitrate_unit(bps: nat) -> Seq<char> {
    if bps < 1000 {
        "bps"@
    } else if bps < 1_000_000 {
        "Kbps"@
    } else if bps < 1_000_000_000 {
        "Mbps"@
    } else {
        "Gbps"@
    }
}

/// `n / scale` in tenths, rounded half up.
pub open spec fn rounded_tenths(n: nat, scale: nat) -> nat
    recommends
        scale > 0,
{
    (10 * n + scale / 2) / scale
}

/// A count of tenths written with exactly one decimal place.
pub open spec fn one_decimal(tenths: nat) -> Seq<char> {
    decimal(tenths / 10) + seq!['.', digit_char(tenths % 10)]
}

/// The text for a bit rate, e.g. `999.0 bps`, `1.5 Mbps`, `2.0 Gbps`.
pub open spec fn bitrate_text(bps: nat) -> Seq<char> {
    one_decimal(rounded_tenths(bps, bitrate_scale(bps))) + seq![' '] + bitrate_unit(bps)
}

/// The text for a latency given in microseconds: `<1 ms` below one
/// millisecond, else milliseconds with one decimal.
pub open spec fn latency_text(micros: nat) -> Seq<char> {
    if micros < 1000 {
        "<1 ms"@
    } else {
        one_decimal(rounded_tenths(micros, 1000)) + " ms"@
    }
}

/// The text for a throughput given in bytes per second: the bit rate it
/// amounts to.
pub open spec fn throughput_text(bytes_per_second: nat) -> Seq<char> {
    bitrate_text(8 * bytes_per_second)
}

/// What a figure shows: `-` when it was never measured, so that a measured
/// zero is told apart from a missing value.
pub open spec fn figure_text(figure: Option<u64>, measured: spec_fn(nat) -> Seq<char>) -> Seq<char> {
    match figure {
        Some(v) => measured(v as nat),
        None => "-"@,
    }
}

fn digit_str(d: u128) -> (r: &'static str)
    requires
        d < 10,
    ensures
        r@ == seq![digit_char(d as nat)],
{
    proof {
        reveal_strlit("0");
        reveal_strlit("1");
        reveal_strlit("2");
        reveal_strlit("3");
        reveal_strlit("4");
        reveal_strlit("5");
        reveal_strlit("6");
        reveal_strlit("7");
        reveal_strlit("8");
        reveal_strlit("9");
    }
    if d == 0 {
        "0"
    } else if d == 1 {
        "1"
    } else if d == 2 {
        "2"
    } else if d == 3 {
        "3"
    } else if d == 4 {
        "4"
    } else if d == 5 {
        "5"
    } else if d == 6 {
        "6"
    } else if d == 7 {
        "7"
    } else if d == 8 {
        "8"
    } else {
        "9"
    }
}

/// Appends the decimal text of `n` to `out`.
pub fn append_decimal(out: &mut String, n: u128)
    ensures
        final(out)@ == old(out)@ + decimal(n as nat),
    decreases n,
{
    if n >= 10 {
        append_decimal(out, n / 10);
    }
    out.append(digit_str(n % 10));
    proof {
        assert(n >= 10 ==> decimal(n as nat) == decimal((n / 10) as nat).push(digit_char((n % 10) as nat)));
    }
}

fn append_one_decimal(out: &mut String, tenths: u128)
    ensures
        final(out)@ == old(out)@ + one_decimal(tenths as nat),
{
    append_decimal(out, tenths / 10);
    out.append(".");
    out.append(digit_str(tenths % 10));
    proof {
        reveal_strlit(".");
        assert(final(out)@ =~= old(out)@ + one_decimal(tenths as nat));
    }
}

/// Renders a bit rate scaled to bps, Kbps, Mbps or Gbps (threshold 1000) with
/// one decimal place, rounded half up.
pub fn format_bitrate(bps: u64) -> (r: String)
    ensures
        r@ == bitrate_text(bps as nat),
{
    let (scale, unit): (u64, &str) = if bps < 1000 {
        (1, "bps")
    } else if bps < 1_000_000 {
        (1000, "Kbps")
    } else if bps < 1_000_000_000 {
        (1_000_000, "Mbps")
    } else {
        (1_000_000_000, "Gbps")
    };
    let tenths: u128 = ((bps as u128) * 10 + (scale as u128) / 2) / (scale as u128);
    let mut out = String::new();
    append_one_decimal(&mut out, tenths);
    out.append(" ");
    out.append(unit);
    proof {
        reveal_strlit(" ");
        assert(out@ =~= bitrate_text(bps as nat));
    }
    out
}

/// Renders a latency given in microseconds: `<1 ms` below a millisecond,
/// else milliseconds with one decimal place.
pub fn format_latency(micros: u64) -> (r: String)
    ensures
        r@ == latency_text(micros as nat),
{
    if micros < 1000 {
        String::from_str("<1 ms")
    } else {
        let tenths: u128 = ((micros as u128) * 10 + 500) / 1000;
        let mut out = String::new();
        append_one_decimal(&mut out, tenths);
        out.append(" ms");
        proof {
            assert(out@ =~= latency_text(micros as nat));
        }
        out
    }
}

/// Renders a throughput given in bytes per second as a bit rate.
pub fn format_throughput(bytes_per_second: u64) -> (r: String)
    ensures
        r@ == throughput_text(bytes_per_second as nat),
{
    if bytes_per_second <= u64::MAX / 8 {
        format_bitrate(bytes_per_second * 8)
    } else {
        let mut out = String::new();
        proof {
            assert(8 * bytes_per_second as nat >= 1_000_000_000);
        }
        let tenths: u128 = ((bytes_per_second as u128) * 80 + 500_000_000) / 1_000_000_000;
        append_one_decimal(&mut out, tenths);
        out.append(" Gbps");
        proof {
            reveal_strlit(" Gbps");
            reveal_strlit("Gbps");
            reveal_strlit(" ");
            assert(out@ =~= throughput_text(bytes_per_second as nat));
        }
        out
    }
}

} // verus!
