//! The latency monitor: which addresses of each backend target are pinged,
//! with which arguments, and how the round-trip times read from the ping
//! tool's output are reduced before they are reported.
use vstd::prelude::*;
use vstd::string::*;
use crate::models::Target;

verus! {

/// Echo requests sent per job.
pub const PING_COUNT: u32 = 20;

/// One address of one target, over one address family.
#[derive(Clone, Debug)]
pub struct PingJob {
    pub target_id: i32,
    pub address: String,
    pub ipv6: bool,
}

pub open spec fn opt_view(o: Option<String>) -> Option<Seq<char>> {
    match o {
        Some(s) => Some(s@),
        None => None,
    }
}

pub open spec fn job_view(j: PingJob) -> (i32, Seq<char>, bool) {
    (j.target_id, j.address@, j.ipv6)
}

/// The jobs of one target: a domain is pinged over IPv4 and over IPv6;
/// without one, each literal address is pinged over its own family.
pub open spec fn target_jobs(t: Target) -> Seq<(i32, Seq<char>, bool)> {
    match opt_view(t.domain) {
        Some(d) => seq![(t.id, d, false), (t.id, d, true)],
        None => {
            let v4 = match opt_view(t.ipv4) {
                Some(a) => seq![(t.id, a, false)],
                None => Seq::empty(),
            };
            let v6 = match opt_view(t.ipv6) {
                Some(a) => seq![(t.id, a, true)],
                None => Seq::empty(),
            };
            v4 + v6
        },
    }
}

pub open spec fn jobs_spec(ts: Seq<Target>) -> Seq<(i32, Seq<char>, bool)>
    decreases ts.len(),
{
    if ts.len() == 0 {
        Seq::empty()
    } else {
        jobs_spec(ts.drop_last()) + target_jobs(ts.last())
    }
}

/// The ping jobs for a list of targets, target by target.
pub fn ping_jobs(targets: &Vec<Target>) -> (r: Vec<PingJob>)
    ensures
        r@.map_values(|j: PingJob| job_view(j)) == jobs_spec(targets@),
{
    let mut out: Vec<PingJob> = Vec::new();
    let mut i: usize = 0;
    while i < targets.len()
        invariant
            i <= targets@.len(),
            out@.map_values(|j: PingJob| job_view(j)) == jobs_spec(targets@.subrange(0, i as int)),
        decreases targets@.len() - i,
    {
        let t = &targets[i];
        let ghost before = out@.map_values(|j: PingJob| job_view(j));
        match &t.domain {
            Some(d) => {
                out.push(PingJob { target_id: t.id, address: d.clone(), ipv6: false });
                out.push(PingJob { target_id: t.id, address: d.clone(), ipv6: true });
            },
            None => {
                match &t.ipv4 {
                    Some(a) => {
                        out.push(PingJob { target_id: t.id, address: a.clone(), ipv6: false });
                    },
                    None => {},
                }
                match &t.ipv6 {
                    Some(a) => {
                        out.push(PingJob { target_id: t.id, address: a.clone(), ipv6: true });
                    },
                    None => {},
                }
            },
        }
        proof {
            assert(targets@.subrange(0, i + 1).drop_last() =~= targets@.subrange(0, i as int));
            assert(out@.map_values(|j: PingJob| job_view(j)) =~= before + target_jobs(targets@[i as int]));
        }
        i = i + 1;
    }
    proof {
        assert(targets@.subrange(0, i as int) =~= targets@);
    }
    out
}

/// Arguments for the system ping tool: the count flag (`-n` on Windows,
/// `-c` elsewhere), the count, the family flag, the address.
pub fn ping_arguments(windows: bool, ipv6: bool, address: &str) -> (r: Vec<String>)
    ensures
        r@.len() == 4,
        r@[0]@ == (if windows {
            "-n"@
        } else {
            "-c"@
        }),
        r@[1]@ == "20"@,
        r@[2]@ == (if ipv6 {
            "-6"@
        } else {
            "-4"@
        }),
        r@[3]@ == address@,
{
    let count_flag = if windows {
        "-n"
    } else {
        "-c"
    };
    let family_flag = if ipv6 {
        "-6"
    } else {
        "-4"
    };
    let mut args: Vec<String> = Vec::new();
    args.push(String::from_str(count_flag));
    args.push(String::from_str("20"));
    args.push(String::from_str(family_flag));
    args.push(String::from_str(address));
    args
}

/// The text of the first capture group in the leftmost match of the regular
/// expression `pattern` in `line`, as the regex crate finds it; `None` when
/// the pattern does not compile, does not match, or its group takes no part.
pub uninterp spec fn first_capture_of(pattern: Seq<char>, line: Seq<char>) -> Option<Seq<char>>;

/// Relies on `regex::Regex::new`, `Regex::captures` and `Captures::get` to
/// find the first capture group of `pattern` in `line`.
#[verifier::external_body]
fn first_capture(pattern: &str, line: &str) -> (r: Option<String>)
    ensures
        match r {
            Some(t) => first_capture_of(pattern@, line@) == Some(t@),
            None => first_capture_of(pattern@, line@) is None,
        },
{
    let re = regex::Regex::new(pattern).ok()?;
    let caps = re.captures(line)?;
    caps.get(1).map(|m| m.as_str().to_string())
}

/// A round-trip time in ping output: `=`, digits and dots (captured), an
/// optional space, `ms`.
pub open spec fn ping_time_pattern() -> Seq<char> {
    "=([\\d.]+) ?ms"@
}

fn ping_time_pattern_str() -> (r: &'static str)
    ensures
        r@ == ping_time_pattern(),
{
    "=([\\d.]+) ?ms"
}

/// The round-trip text found in one line of ping output, if any.
pub open spec fn ping_time_capture(line: Seq<char>) -> Option<Seq<char>> {
    first_capture_of(ping_time_pattern(), line)
}

/// How many lines the scan reads: up to and including the first empty line
/// after the first line, or all of them.
pub open spec fn scan_end(lines: Seq<Seq<char>>, from: int) -> int
    decreases lines.len() - from,
{
    if from >= lines.len() {
        lines.len() as int
    } else if from >= 1 && lines[from].len() == 0 {
        from + 1
    } else {
        scan_end(lines, from + 1)
    }
}

/// The captured round-trip texts of the given lines, in order.
pub open spec fn captured(lines: Seq<Seq<char>>) -> Seq<Seq<char>>
    decreases lines.len(),
{
    if lines.len() == 0 {
        Seq::empty()
    } else {
        let p = captured(lines.drop_last());
        match ping_time_capture(lines.last()) {
            Some(t) => p.push(t),
            None => p,
        }
    }
}

pub open spec fn lines_view(lines: Seq<String>) -> Seq<Seq<char>> {
    lines.map_values(|s: String| s@)
}

/// How many lines of ping output are read: up to and including the first
/// empty line after the first line, or all of them.
pub fn scan_length(lines: &Vec<String>) -> (r: usize)
    ensures
        r == scan_end(lines_view(lines@), 0),
{
    let ghost lv = lines_view(lines@);
    let mut i: usize = 0;
    while i < lines.len()
        invariant
            i <= lines@.len(),
            lv == lines_view(lines@),
            scan_end(lv, i as int) == scan_end(lv, 0),
        decreases lines@.len() - i,
    {
        proof {
            assert(lv[i as int] == lines@[i as int]@);
        }
        if i >= 1 && lines[i].as_str().unicode_len() == 0 {
            return i + 1;
        }
        i = i + 1;
    }
    i
}

/// The round-trip texts in a ping tool's output lines, read up to the first
/// empty line after the first one.
pub fn ping_time_texts(lines: &Vec<String>) -> (r: Vec<String>)
    ensures
        r@.map_values(|s: String| s@) == captured(
            lines_view(lines@).subrange(0, scan_end(lines_view(lines@), 0)),
        ),
{
    let end = scan_length(lines);
    proof {
        lemma_scan_end_bounds(lines_view(lines@), 0);
    }
    let ghost lv = lines_view(lines@);
    let pattern = ping_time_pattern_str();
    let mut out: Vec<String> = Vec::new();
    let mut i: usize = 0;
    while i < end
        invariant
            i <= end <= lines@.len(),
            lv == lines_view(lines@),
            pattern@ == ping_time_pattern(),
            out@.map_values(|s: String| s@) == captured(lv.subrange(0, i as int)),
        decreases end - i,
    {
        let ghost before = out@.map_values(|s: String| s@);
        proof {
            assert(lv.subrange(0, i + 1).drop_last() =~= lv.subrange(0, i as int));
            assert(lv[i as int] == lines@[i as int]@);
        }
        match first_capture(pattern, lines[i].as_str()) {
            Some(t) => {
                out.push(t);
                proof {
                    assert(out@.map_values(|s: String| s@) =~= before.push(t@));
                }
            },
            None => {},
        }
        i = i + 1;
    }
    out
}

proof fn lemma_scan_end_bounds(lines: Seq<Seq<char>>, from: int)
    requires
        0 <= from <= lines.len(),
    ensures
        from <= scan_end(lines, from) <= lines.len(),
    decreases lines.len() - from,
{
    if from < lines.len() && !(from >= 1 && lines[from].len() == 0) {
        lemma_scan_end_bounds(lines, from + 1);
    }
}

pub open spec fn times_sum(s: Seq<u16>) -> nat
    decreases s.len(),
{
    if s.len() == 0 {
        0
    } else {
        times_sum(s.drop_last()) + s.last() as nat
    }
}

pub open spec fn times_min(s: Seq<u16>) -> nat
    decreases s.len(),
{
    if s.len() == 0 {
        u16::MAX as nat
    } else if (s.last() as nat) < times_min(s.drop_last()) {
        s.last() as nat
    } else {
        times_min(s.drop_last())
    }
}

/// What the monitor reports for one job, in whole milliseconds.
#[derive(Clone, Copy, Debug, PartialEq, Eq, Structural)]
pub struct PingSummary {
    pub min: u16,
    pub avg: u16,
    /// Mean distance above the minimum, rounded down.
    pub jitter: u16,
    /// Requests without a reply.
    pub failed: u32,
}

pub open spec fn summary_spec(s: Seq<u16>, sent: nat) -> Option<PingSummary> {
    if s.len() == 0 {
        None
    } else {
        Some(
            PingSummary {
                min: times_min(s) as u16,
                avg: (times_sum(s) / s.len()) as u16,
                jitter: ((times_sum(s) - s.len() * times_min(s)) / (s.len() as int)) as u16,
                failed: if s.len() >= sent {
                    0
                } else {
                    (sent - s.len()) as u32
                },
            },
        )
    }
}

/// Reduces the round trips of one job (`sent` requests); `None` when no
/// reply came back, in which case nothing is reported.
pub fn summarize_ping(times: &Vec<u16>, sent: u32) -> (r: Option<PingSummary>)
    ensures
        r == summary_spec(times@, sent as nat),
{
    let n = times.len();
    if n == 0 {
        return None;
    }
    let mut sum: u128 = 0;
    let mut min: u16 = u16::MAX;
    let mut i: usize = 0;
    while i < n
        invariant
            i <= n == times@.len(),
            sum == times_sum(times@.subrange(0, i as int)),
            min == times_min(times@.subrange(0, i as int)),
            sum <= i * 65535,
            i > 0 ==> sum >= min + (i - 1) * min,
        decreases n - i,
    {
        proof {
            assert(times@.subrange(0, i + 1).drop_last() =~= times@.subrange(0, i as int));
        }
        let t = times[i];
        proof {
            let new_min: int = if t < min { t as int } else { min as int };
            assert(sum + t >= new_min + i * new_min) by (nonlinear_arith)
                requires
                    i > 0 ==> sum >= min + (i - 1) * min,
                    i == 0 ==> sum == 0,
                    new_min <= min,
                    new_min <= t,
                    new_min >= 0,
            ;
        }
        sum = sum + t as u128;
        if t < min {
            min = t;
        }
        i = i + 1;
    }
    proof {
        assert(times@.subrange(0, i as int) =~= times@);
        assert((sum as int) / (n as int) <= 65535) by (nonlinear_arith)
            requires
                sum <= n * 65535,
                n > 0,
        ;
        assert(sum >= n * min) by (nonlinear_arith)
            requires
                sum >= min + (n - 1) * min,
        ;
        assert((sum - n * min) / (n as int) <= (sum as int) / (n as int)) by (nonlinear_arith)
            requires
                n > 0,
                sum >= n * min,
                min >= 0,
        ;
    }
    let avg = (sum / n as u128) as u16;
    let jitter = ((sum - (n as u128) * (min as u128)) / n as u128) as u16;
    let failed: u32 = if n as u64 >= sent as u64 {
        0
    } else {
        sent - n as u32
    };
    Some(PingSummary { min, avg, jitter, failed })
}

} // verus!
