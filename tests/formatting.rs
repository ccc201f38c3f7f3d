use bim::format::{append_decimal, format_bitrate, format_latency, format_throughput};

#[test]
fn bitrate_scales_with_one_decimal() {
    assert_eq!(format_bitrate(999), "999.0 bps");
    assert_eq!(format_bitrate(1_500_000), "1.5 Mbps");
    assert_eq!(format_bitrate(2_000_000_000), "2.0 Gbps");
}

#[test]
fn bitrate_thresholds_and_rounding() {
    assert_eq!(format_bitrate(0), "0.0 bps");
    assert_eq!(format_bitrate(1000), "1.0 Kbps");
    assert_eq!(format_bitrate(1049), "1.0 Kbps");
    assert_eq!(format_bitrate(1050), "1.1 Kbps");
    assert_eq!(format_bitrate(999_999), "1000.0 Kbps");
    assert_eq!(format_bitrate(123_456_789), "123.5 Mbps");
    assert_eq!(format_bitrate(u64::MAX), "18446744073.7 Gbps");
}

#[test]
fn latency_text_forms() {
    assert_eq!(format_latency(0), "<1 ms");
    assert_eq!(format_latency(999), "<1 ms");
    assert_eq!(format_latency(1000), "1.0 ms");
    assert_eq!(format_latency(12_345), "12.3 ms");
    assert_eq!(format_latency(12_350), "12.4 ms");
}

#[test]
fn throughput_as_bits() {
    assert_eq!(format_throughput(0), "0.0 bps");
    assert_eq!(format_throughput(125_000), "1.0 Mbps");
    assert_eq!(format_throughput(1_310_720), "10.5 Mbps");
    assert_eq!(format_throughput(u64::MAX), "147573952589.7 Gbps");
}

#[test]
fn decimal_digits_are_appended() {
    let mut s = String::from("n=");
    append_decimal(&mut s, 0);
    assert_eq!(s, "n=0");
    let mut t = String::new();
    append_decimal(&mut t, 340282366920938463463374607431768211455);
    assert_eq!(t, "340282366920938463463374607431768211455");
}
