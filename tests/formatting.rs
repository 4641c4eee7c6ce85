use dirsize::format::{human_readable_size, push_decimal, report_line, TargetKind};

#[test]
fn zero_bytes() {
    assert_eq!(human_readable_size(0), "0.0 B");
}

#[test]
fn just_under_a_kilobyte_stays_in_bytes() {
    assert_eq!(human_readable_size(1023), "1023.0 B");
}

#[test]
fn one_kilobyte() {
    assert_eq!(human_readable_size(1024), "1.0 KB");
}

#[test]
fn one_and_a_half_kilobytes() {
    assert_eq!(human_readable_size(1536), "1.5 KB");
}

#[test]
fn one_exabyte() {
    assert_eq!(human_readable_size(1u64 << 60), "1.0 EB");
}

#[test]
fn no_unit_beyond_exabytes() {
    // 1024^7 does not fit in 64 bits; the largest count stays in EB as well.
    assert_eq!(human_readable_size(u64::MAX), "16.0 EB");
    assert_eq!(human_readable_size(15u64 << 60), "15.0 EB");
}

#[test]
fn each_unit_in_turn() {
    assert_eq!(human_readable_size(1u64 << 20), "1.0 MB");
    assert_eq!(human_readable_size(1u64 << 30), "1.0 GB");
    assert_eq!(human_readable_size(1u64 << 40), "1.0 TB");
    assert_eq!(human_readable_size(1u64 << 50), "1.0 PB");
    assert_eq!(human_readable_size(5u64 << 50), "5.0 PB");
}

#[test]
fn one_fractional_digit_rounded_to_nearest() {
    // 1075 / 1024 = 1.0498...
    assert_eq!(human_readable_size(1075), "1.0 KB");
    // 1076 / 1024 = 1.0507...
    assert_eq!(human_readable_size(1076), "1.1 KB");
    // 1023.99... KB is shown as 1024.0 KB, not carried into MB.
    assert_eq!(human_readable_size((1u64 << 20) - 1), "1024.0 KB");
}

#[test]
fn exact_halves_round_to_even_tenth() {
    // 1280 / 1024 = 1.25 and 3840 / 1024 = 3.75.
    assert_eq!(human_readable_size(1280), "1.2 KB");
    assert_eq!(human_readable_size(3840), "3.8 KB");
}

#[test]
fn decimal_digits_are_appended() {
    let mut s = String::from("n=");
    push_decimal(&mut s, 0);
    assert_eq!(s, "n=0");
    let mut t = String::new();
    push_decimal(&mut t, 18446744073709551615);
    assert_eq!(t, "18446744073709551615");
}

#[test]
fn file_of_two_kilobytes_report() {
    let line = report_line(TargetKind::File, "data.bin", 2048);
    assert_eq!(line, "File 'data.bin' has 2.0 KB (2048 bytes)");
    assert!(line.ends_with("2.0 KB (2048 bytes)"));
}

#[test]
fn directory_report() {
    let line = report_line(TargetKind::Directory, "/tmp/x", 500);
    assert_eq!(line, "Directory '/tmp/x' has 500.0 B (500 bytes)");
}
