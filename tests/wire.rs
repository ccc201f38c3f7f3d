use bim::protocol::{
    download_command, http_upload_chunk, parse_port, ping_command, split_host_port,
    tcp_upload_data, upload_command, DECLARED_TRANSFER_SIZE, HTTP_CHUNK_LEN,
};
use bim::target::{MeasurementTarget, Protocol};

#[test]
fn command_lines() {
    assert_eq!(download_command(DECLARED_TRANSFER_SIZE), "DOWNLOAD 15000000000\n");
    assert_eq!(upload_command(DECLARED_TRANSFER_SIZE), "UPLOAD 15000000000 0\n");
    assert_eq!(ping_command(), "PING 0\n");
}

#[test]
fn http_chunk_repeats_the_pattern() {
    let c = http_upload_chunk();
    assert_eq!(c.len(), HTTP_CHUNK_LEN);
    let pattern = "0123456789AaBbCcDdEeFfGgHhIiJjKkLlMmNnOoPpQqRrSsTtUuVvWwXxYyZz-=".repeat(512);
    assert_eq!(c, pattern.as_bytes());
}

#[test]
fn tcp_data_repeats_the_pattern() {
    let d = tcp_upload_data(100);
    let pattern = "23456789ABCDEFGHIJKLMNOPQRSTUVWX".repeat(4);
    assert_eq!(d, &pattern.as_bytes()[..100]);
    assert!(tcp_upload_data(0).is_empty());
}

#[test]
fn ports_parse_like_u16() {
    for t in ["80", "+80", "0080", "65535", "0", "", "+", "65536", "8a", "-1", "99999999999"] {
        assert_eq!(parse_port(t), t.parse::<u16>().ok(), "{t}");
    }
}

#[test]
fn host_port_split() {
    assert_eq!(split_host_port("speed.example.net:8080"), Some(("speed.example.net".to_string(), 8080)));
    assert_eq!(split_host_port("h:1:2"), Some(("h".to_string(), 1)));
    assert_eq!(split_host_port("no-port"), None);
    assert_eq!(split_host_port("h:"), None);
    assert_eq!(split_host_port("h:x"), None);
}

fn target(protocol: Protocol, endpoint: &str) -> MeasurementTarget {
    MeasurementTarget {
        protocol,
        name: "t".to_string(),
        download_endpoint: endpoint.to_string(),
        upload_endpoint: endpoint.to_string(),
        ipv6: false,
        thread_count: 4,
    }
}

#[test]
fn endpoint_address_by_protocol() {
    let raw = target(Protocol::RawTcp, "host.example:5201");
    assert_eq!(raw.endpoint_address(), Some(("host.example".to_string(), 5201)));
    let http = target(Protocol::HttpChunked, "http://speed.example.org/garbage.php");
    assert_eq!(http.endpoint_address(), Some(("speed.example.org".to_string(), 80)));
    let https = target(Protocol::HttpChunked, "https://speed.example.org:8443/x");
    assert_eq!(https.endpoint_address(), Some(("speed.example.org".to_string(), 8443)));
    let bad = target(Protocol::HttpChunked, "not a url");
    assert_eq!(bad.endpoint_address(), None);
}

#[test]
fn download_url_gets_the_chunk_query() {
    let http = target(Protocol::HttpChunked, "http://speed.example.org/garbage.php?old=1");
    assert_eq!(
        http.download_request_url(),
        Some("http://speed.example.org/garbage.php?ckSize=1024".to_string())
    );
    let raw = target(Protocol::RawTcp, "host.example:5201");
    assert_eq!(raw.download_request_url(), None);
}

#[test]
fn settings_are_consistent() {
    let s = Protocol::RawTcp.settings();
    assert_eq!(s.ramp_up_ticks, 2);
    assert_eq!(s.ticks, 15);
    assert!(s.ramp_up_ticks < s.ticks);
}
