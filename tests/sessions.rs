use metered_pipe::session::{Mode, Session};

const SEC: u64 = 1_000_000_000;

#[test]
fn initial_buffer_sizes() {
    assert_eq!(Session::new(Mode::Adaptive).buffer_size, 1048576);
    assert_eq!(Session::new(Mode::Static).buffer_size, 1024);
    assert_eq!(Session::new(Mode::TotalsOnly).buffer_size, 1048576);
}

#[test]
fn quick_reads_double_the_buffer() {
    let mut s = Session::new(Mode::Adaptive);
    let chunk = vec![7u8; 10];
    assert_eq!(s.record(&chunk, SEC / 10), None);
    assert_eq!(s.buffer_size, 2097152);
    assert_eq!(s.bytes_written, 10);
}

#[test]
fn buffer_never_grows_past_the_maximum() {
    let mut s = Session::new(Mode::Adaptive);
    let chunk = vec![0u8; 4];
    let mut previous = s.buffer_size;
    for _ in 0..20 {
        s.record(&chunk, 0);
        assert!(s.buffer_size == previous * 2 || s.buffer_size == previous);
        assert!(s.buffer_size <= 33554432);
        previous = s.buffer_size;
    }
    assert_eq!(s.buffer_size, 33554432);
}

#[test]
fn full_reads_with_slow_reports_halve_down_to_the_minimum() {
    let mut s = Session::new(Mode::Adaptive);
    let mut now = 0u64;
    let mut previous = s.buffer_size;
    for _ in 0..20 {
        now += 3 * SEC;
        let chunk = vec![1u8; s.buffer_size];
        let line = s.record(&chunk, now);
        assert!(line.is_some());
        assert!(s.buffer_size * 2 == previous || s.buffer_size == previous);
        assert!(s.buffer_size >= 256);
        previous = s.buffer_size;
    }
    assert_eq!(s.buffer_size, 256);
}

#[test]
fn partial_reads_do_not_shrink() {
    let mut s = Session::new(Mode::Adaptive);
    let chunk = vec![1u8; 100];
    assert!(s.record(&chunk, 3 * SEC).is_some());
    assert_eq!(s.buffer_size, 1048576);
}

#[test]
fn progress_line_text() {
    let mut s = Session::new(Mode::Adaptive);
    let chunk = vec![1u8; 3];
    assert_eq!(s.record(&chunk, SEC), Some(String::from("3 Bytes, 3.00 Bytes/sec   \r")));
    assert_eq!(s.last_report_ns, SEC);
}

#[test]
fn progress_lines_are_a_second_apart() {
    let mut s = Session::new(Mode::Adaptive);
    let chunk = vec![1u8; 8];
    let times = [SEC / 2, SEC + SEC / 5, 2 * SEC, 2 * SEC + SEC / 5, 3 * SEC, 5 * SEC];
    let mut reported = Vec::new();
    for t in times {
        if s.record(&chunk, t).is_some() {
            reported.push(t);
        }
    }
    assert_eq!(reported, vec![SEC + SEC / 5, 2 * SEC + SEC / 5, 5 * SEC]);
    for w in reported.windows(2) {
        assert!(w[1] - w[0] >= SEC);
    }
}

#[test]
fn static_mode_keeps_its_buffer_over_ten_megabytes() {
    let mut s = Session::new(Mode::Static);
    let mut now = 0u64;
    for i in 0..10240u64 {
        let chunk = vec![(i % 251) as u8; s.buffer_size];
        now += if i % 3 == 0 { 3 * SEC } else { SEC / 100 };
        s.record(&chunk, now);
        assert_eq!(s.buffer_size, 1024);
    }
    assert_eq!(s.bytes_written, 10 * 1048576);
}

#[test]
fn totals_only_emits_only_the_summary() {
    let mut s = Session::new(Mode::TotalsOnly);
    let chunk = vec![9u8; 4096];
    let mut lines = 0;
    for i in 1..=50u64 {
        if s.record(&chunk, i * 2 * SEC).is_some() {
            lines += 1;
        }
        assert_eq!(s.buffer_size, 1048576);
    }
    let summary = s.finish(100 * SEC);
    lines += 1;
    assert_eq!(lines, 1);
    assert_eq!(summary, "200.00 KB in 100.000 s, 2048.00 Bytes/sec");
}

#[test]
fn empty_input_summary() {
    let s = Session::new(Mode::Adaptive);
    assert_eq!(s.finish(1234), "0 Bytes in 0.000 s, rate n/a");
}

#[test]
fn sub_second_summary_has_no_rate() {
    let mut s = Session::new(Mode::Adaptive);
    let chunk = vec![1u8; 5000];
    s.record(&chunk, SEC / 2);
    assert_eq!(s.finish(999_999_999), "4.88 KB in 0.999 s, rate n/a");
}

#[test]
fn summary_with_rate() {
    let mut s = Session::new(Mode::Static);
    let chunk = vec![1u8; 1024];
    for i in 0..3u64 {
        s.record(&chunk, i);
    }
    assert_eq!(s.finish(1_500_000_000), "3.00 KB in 1.500 s, 2048.00 Bytes/sec");
}

#[test]
fn bytes_written_is_the_sum_of_chunks() {
    let mut s = Session::new(Mode::Adaptive);
    let sizes = [1usize, 500, 0, 77, 4096];
    let mut total = 0u64;
    let mut now = 0u64;
    for n in sizes {
        let before = s.bytes_written;
        let chunk = vec![3u8; n];
        now += SEC / 3;
        s.record(&chunk, now);
        total += n as u64;
        assert!(s.bytes_written >= before);
        assert_eq!(s.bytes_written, total);
    }
}

#[test]
fn clock_reading_before_last_report_counts_as_no_time() {
    let mut s = Session::new(Mode::Adaptive);
    let chunk = vec![1u8; 10];
    assert!(s.record(&chunk, 5 * SEC).is_some());
    assert_eq!(s.record(&chunk, 4 * SEC), None);
    assert_eq!(s.buffer_size, 2097152);
}
