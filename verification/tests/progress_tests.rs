use burn_engine::progress::parse_dd_bytes;
use burn_engine::progress::parse_progress_line;
use burn_engine::progress::scan_stream;
use burn_engine::progress::ProgressScanner;
use burn_engine::progress::ProgressState;

#[test]
fn progress_line_with_rate_suffix_yields_offset() {
    let offsets = scan_stream("104857600 bytes (105 MB, 100 MiB) copied, 1.0 s, 100 MB/s\r");
    assert_eq!(offsets, vec![104857600]);
}

#[test]
fn diagnostic_line_yields_no_offset() {
    let offsets = scan_stream("dd: some diagnostic\n");
    assert_eq!(offsets, Vec::<u64>::new());
}

#[test]
fn grouped_digits_are_parsed_without_separators() {
    assert_eq!(parse_progress_line("1,234,567 bytes copied"), Some(1234567));
}

#[test]
fn parse_dd_bytes_takes_leading_token() {
    assert_eq!(
        parse_dd_bytes("1234567168 bytes (1.2 GB, 1.1 GiB) copied, 5.1 s, 242 MB/s"),
        Some(1234567168)
    );
}

#[test]
fn parse_dd_bytes_rejects_non_numeric_token() {
    assert_eq!(parse_dd_bytes("dd: error writing"), None);
    assert_eq!(parse_dd_bytes(""), None);
    assert_eq!(parse_dd_bytes("   "), None);
    assert_eq!(parse_dd_bytes(",,,"), None);
}

#[test]
fn parse_dd_bytes_rejects_overflowing_value() {
    assert_eq!(parse_dd_bytes("99999999999999999999 bytes copied"), None);
    // largest value that still fits
    assert_eq!(parse_dd_bytes("18446744073709551615 bytes copied"), Some(u64::MAX));
}

#[test]
fn line_without_both_markers_is_ignored() {
    // "bytes" without "copied"
    assert_eq!(parse_progress_line("512 bytes read"), None);
    // "copied" without "bytes"
    assert_eq!(parse_progress_line("512 blocks copied"), None);
    // both markers present
    assert_eq!(parse_progress_line("512 bytes copied"), Some(512));
}

#[test]
fn scanner_handles_carriage_return_overwrites() {
    let mut sc = ProgressScanner::new();
    let mut all = Vec::new();
    let stream = "1048576 bytes (1.0 MB) copied, 0.1 s\r2097152 bytes (2.1 MB) copied, 0.2 s\rdd: chatter\n4194304 bytes (4.2 MB) copied, 0.4 s\n";
    for ch in stream.chars() {
        let piece = ch.to_string();
        all.extend(sc.feed(&piece));
    }
    assert_eq!(all, vec![1048576, 2097152, 4194304]);
}

#[test]
fn scanner_keeps_unterminated_line_buffered() {
    let mut sc = ProgressScanner::new();
    let first = sc.feed("123 bytes cop");
    assert_eq!(first, Vec::<u64>::new());
    let second = sc.feed("ied\r");
    assert_eq!(second, vec![123]);
}

#[test]
fn whole_stream_scan_matches_chunked_scan() {
    let stream = "7 bytes copied\n8 bytes copied\r";
    let whole = scan_stream(stream);
    let mut sc = ProgressScanner::new();
    let mut chunked = sc.feed("7 bytes co");
    chunked.extend(sc.feed("pied\n8 bytes copied\r"));
    assert_eq!(whole, chunked);
}

#[test]
fn progress_state_is_monotonic_and_clamped() {
    let mut st = ProgressState::new(1000);
    assert_eq!(st.offset(), 0);
    assert_eq!(st.total(), 1000);
    st.record(400);
    assert_eq!(st.offset(), 400);
    st.record(200);
    assert_eq!(st.offset(), 400, "offset never regresses");
    st.record(5000);
    assert_eq!(st.offset(), 1000, "offset never exceeds the total");
    st.record(999);
    assert_eq!(st.offset(), 1000);
}
