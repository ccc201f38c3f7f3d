use bim::models::Target;
use bim::monitor::{
    ping_arguments, ping_jobs, ping_time_texts, scan_length, summarize_ping, PingSummary, PING_COUNT,
};

fn target(id: i32, domain: Option<&str>, ipv4: Option<&str>, ipv6: Option<&str>) -> Target {
    Target {
        id,
        name: format!("t{id}"),
        domain: domain.map(String::from),
        ipv4: ipv4.map(String::from),
        ipv6: ipv6.map(String::from),
    }
}

#[test]
fn domain_is_pinged_over_both_families() {
    let jobs = ping_jobs(&vec![
        target(1, Some("example.org"), Some("192.0.2.1"), None),
        target(2, None, Some("192.0.2.2"), Some("2001:db8::2")),
        target(3, None, None, Some("2001:db8::3")),
        target(4, None, None, None),
    ]);
    let seen: Vec<(i32, &str, bool)> =
        jobs.iter().map(|j| (j.target_id, j.address.as_str(), j.ipv6)).collect();
    assert_eq!(
        seen,
        vec![
            (1, "example.org", false),
            (1, "example.org", true),
            (2, "192.0.2.2", false),
            (2, "2001:db8::2", true),
            (3, "2001:db8::3", true),
        ]
    );
}

#[test]
fn ping_arguments_by_platform_and_family() {
    assert_eq!(ping_arguments(false, false, "example.org"), vec!["-c", "20", "-4", "example.org"]);
    assert_eq!(ping_arguments(true, true, "example.org"), vec!["-n", "20", "-6", "example.org"]);
}

#[test]
fn times_are_read_up_to_the_first_blank_line() {
    let out = "PING example.org (192.0.2.1) 56(84) bytes of data.\n\
64 bytes from 192.0.2.1: icmp_seq=1 ttl=55 time=12.4 ms\n\
64 bytes from 192.0.2.1: icmp_seq=2 ttl=55 time=9.87 ms\n\
Reply from 192.0.2.1: bytes=32 time=7ms TTL=55\n\
\n\
--- example.org ping statistics ---\n\
rtt min/avg/max/mdev = 9.870/11.135/12.400/1.265 ms\n";
    let lines: Vec<String> = out.lines().map(String::from).collect();
    assert_eq!(ping_time_texts(&lines), vec!["12.4", "9.87", "7"]);
}

#[test]
fn no_times_without_matches() {
    let lines = vec!["".to_string(), "Request timed out.".to_string()];
    assert!(ping_time_texts(&lines).is_empty());
    assert!(ping_time_texts(&vec![]).is_empty());
}

#[test]
fn summary_of_replies() {
    let s = summarize_ping(&vec![12, 9, 7, 12], PING_COUNT).unwrap();
    assert_eq!(s, PingSummary { min: 7, avg: 10, jitter: 3, failed: 16 });
    assert_eq!(summarize_ping(&vec![], PING_COUNT), None);
    let many = vec![1u16; 25];
    assert_eq!(summarize_ping(&many, PING_COUNT).unwrap().failed, 0);
    assert_eq!(summarize_ping(&vec![u16::MAX, u16::MAX], 2).unwrap().avg, u16::MAX);
}

#[test]
fn scan_stops_after_the_first_blank_line_past_the_header() {
    let l = |v: &[&str]| v.iter().map(|s| s.to_string()).collect::<Vec<String>>();
    assert_eq!(scan_length(&l(&["", "a", "", "b"])), 3);
    assert_eq!(scan_length(&l(&["a", "b"])), 2);
    assert_eq!(scan_length(&l(&["a", "", ""])), 2);
    assert_eq!(scan_length(&vec![]), 0);
}
