use client_rust_fix::text::{chars_of, decimal_text, printable};
use client_rust_fix::utils::{generate_order_id, generate_ts, get_now, next_order_id};

#[test]
fn decimal_text_values() {
    assert_eq!(decimal_text(0), "0");
    assert_eq!(decimal_text(9), "9");
    assert_eq!(decimal_text(10), "10");
    assert_eq!(decimal_text(55667), "55667");
    assert_eq!(decimal_text(u64::MAX), "18446744073709551615");
}

#[test]
fn printable_replaces_separators() {
    assert_eq!(printable("8=FIX.4.4\x0135=A\x01"), "8=FIX.4.4|35=A|");
    assert_eq!(printable(""), "");
    assert_eq!(printable("abc"), "abc");
}

#[test]
fn chars_of_keeps_every_char() {
    assert_eq!(chars_of("aé\x01"), vec!['a', 'é', '\x01']);
}

#[test]
fn clock_reads_are_recent() {
    assert!(get_now() > 1_600_000_000);
    let first = generate_order_id(0);
    assert!(first >= 1_600_000_000);
    let second = generate_order_id(first);
    assert!(second > first);
}

#[test]
fn next_order_id_follows_clock_or_last() {
    assert_eq!(next_order_id(5, 1_700_000_000), 1_700_000_000);
    assert_eq!(next_order_id(1_700_000_000, 1_700_000_000), 1_700_000_001);
    assert_eq!(next_order_id(1_700_000_003, 1_700_000_000), 1_700_000_004);
    assert_eq!(next_order_id(u64::MAX - 1, 0), u64::MAX);
}

#[test]
fn timestamp_has_sending_time_shape() {
    let ts = generate_ts(0);
    assert_eq!(ts.len(), 27);
    assert_eq!(&ts[8..9], "-");
    assert_eq!(&ts[17..18], ".");
    let later = generate_ts(24);
    assert!(later > ts);
}
