use metered_pipe::scale::{format_bytes, format_flow, scale_bytes, scale_rate, Scaled};
use metered_pipe::units::Unit;

#[test]
fn zero_bytes() {
    assert_eq!(format_bytes(0), "0 Bytes");
}

#[test]
fn two_kb_is_still_bytes() {
    assert_eq!(format_bytes(2048), "2048 Bytes");
}

#[test]
fn just_over_two_kb_is_kb() {
    assert_eq!(format_bytes(2049), "2.00 KB");
}

#[test]
fn kb_to_mb_boundary() {
    assert_eq!(format_bytes(2097152), "2048.00 KB");
    assert_eq!(format_bytes(2097153), "2.00 MB");
}

#[test]
fn mb_to_gb_boundary() {
    assert_eq!(format_bytes(2147483648), "2048.00 MB");
    assert_eq!(format_bytes(2147483649), "2.00 GB");
}

#[test]
fn gb_decimals_end_at_half_tb() {
    assert_eq!(format_bytes(549755813888), "512.00 GB");
    assert_eq!(format_bytes(549755813889), "512 GB");
}

#[test]
fn largest_count() {
    assert_eq!(format_bytes(u64::MAX), "17179869183 GB");
}

#[test]
fn kb_rounding_ties_go_to_even() {
    assert_eq!(format_bytes(2176), "2.12 KB");
    assert_eq!(format_bytes(2432), "2.38 KB");
    assert_eq!(format_bytes(3000), "2.93 KB");
}

#[test]
fn mb_value() {
    assert_eq!(format_bytes(10 * 1048576 + 524288), "10.50 MB");
}

#[test]
fn gb_value_drops_partial_megabytes() {
    // 3 GB and 1023 bytes: the spare bytes fall below one MB and are dropped.
    assert_eq!(format_bytes(3 * 1073741824 + 1023), "3.00 GB");
}

#[test]
fn scale_bytes_units() {
    assert_eq!(scale_bytes(100), Scaled { unit: Unit::Bytes, amount: 100, fractional: false });
    assert_eq!(scale_bytes(3072), Scaled { unit: Unit::KB, amount: 300, fractional: true });
    assert_eq!(
        scale_bytes(600 * 1073741824),
        Scaled { unit: Unit::GB, amount: 600, fractional: false }
    );
}

#[test]
fn rate_in_bytes() {
    assert_eq!(format_flow(1000, 2_000_000_000), "500.00 Bytes/sec");
    assert_eq!(format_flow(0, 1_000_000_000), "0.00 Bytes/sec");
}

#[test]
fn rate_ceiling_is_inclusive() {
    assert_eq!(format_flow(2048, 1_000_000_000), "2048.00 Bytes/sec");
    assert_eq!(format_flow(2049, 1_000_000_000), "2.00 KB/sec");
}

#[test]
fn rate_in_kb_and_mb() {
    assert_eq!(format_flow(3072, 1_000_000_000), "3.00 KB/sec");
    assert_eq!(format_flow(30 * 1048576, 10_000_000_000), "3.00 MB/sec");
}

#[test]
fn rate_in_gb() {
    assert_eq!(format_flow(6 * 1073741824, 2_000_000_000), "3.00 GB/sec");
    assert_eq!(format_flow(u64::MAX, 1_000_000_000), "17179869183.00 GB/sec");
}

#[test]
fn rate_of_large_total_uses_whole_megabytes() {
    // 4 GB and 1 MB minus one byte: the partial MB is dropped before dividing.
    let bytes = 4 * 1073741824 + 1048575;
    assert_eq!(
        scale_rate(bytes, 2_000_000_000),
        Scaled { unit: Unit::MB, amount: 204800, fractional: true }
    );
}
