use run_gbme::config::{config_from_flags, Flags, RunError};
use run_gbme::decimal::{parse_decimal, Decimal};
use run_gbme::flags::{decode_count, decode_fraction, decode_threads, parse_u32};

fn some(s: &str) -> Option<String> {
    Some(s.to_string())
}

fn dec(negative: bool, units: u64, scale: u32) -> Decimal {
    Decimal { negative, units, scale }
}

#[test]
fn parse_u32_accepts_plain_and_padded_numbers() {
    assert_eq!(parse_u32("42"), Some(42));
    assert_eq!(parse_u32("  42\t"), Some(42));
    assert_eq!(parse_u32("+7"), Some(7));
    assert_eq!(parse_u32("4294967295"), Some(u32::MAX));
    assert_eq!(parse_u32("007"), Some(7));
}

#[test]
fn parse_u32_rejects_malformed_numbers() {
    assert_eq!(parse_u32(""), None);
    assert_eq!(parse_u32("   "), None);
    assert_eq!(parse_u32("+"), None);
    assert_eq!(parse_u32("-3"), None);
    assert_eq!(parse_u32("12a"), None);
    assert_eq!(parse_u32("1 2"), None);
    assert_eq!(parse_u32("4294967296"), None);
    assert_eq!(parse_u32("99999999999999999999999"), None);
}

#[test]
fn unparsable_counts_fall_back_to_zero() {
    assert_eq!(decode_count(&some("abc"), 1000), 0);
    assert_eq!(decode_count(&some("1.5"), 100000), 0);
    assert_eq!(decode_count(&some(""), 1000), 0);
    assert_eq!(decode_count(&some(" 250 "), 1000), 250);
    assert_eq!(decode_count(&None, 1000), 1000);
}

#[test]
fn threads_outside_range_become_zero() {
    assert_eq!(decode_threads(&some("12")), 12);
    assert_eq!(decode_threads(&some("1")), 1);
    assert_eq!(decode_threads(&some("63")), 63);
    assert_eq!(decode_threads(&some("64")), 0);
    assert_eq!(decode_threads(&some("0")), 0);
    assert_eq!(decode_threads(&some("many")), 0);
    assert_eq!(decode_threads(&None), 12);
}

#[test]
fn parse_decimal_reads_decimal_literals() {
    assert_eq!(parse_decimal("0.1"), Some(dec(false, 1, 1)));
    assert_eq!(parse_decimal(" 12.50 "), Some(dec(false, 125, 1)));
    assert_eq!(parse_decimal("1250"), Some(dec(false, 1250, 0)));
    assert_eq!(parse_decimal(".5"), Some(dec(false, 5, 1)));
    assert_eq!(parse_decimal("5."), Some(dec(false, 5, 0)));
    assert_eq!(parse_decimal("-0.5"), Some(dec(true, 5, 1)));
    assert_eq!(parse_decimal("+3"), Some(dec(false, 3, 0)));
    assert_eq!(parse_decimal("."), None);
    assert_eq!(parse_decimal(""), None);
    assert_eq!(parse_decimal("1.2.3"), None);
    assert_eq!(parse_decimal("abc"), None);
    assert_eq!(parse_decimal("0.00000000000000000001"), None);
}

#[test]
fn parse_decimal_reads_exponents() {
    assert_eq!(parse_decimal("1e-1"), Some(dec(false, 1, 1)));
    assert_eq!(parse_decimal("5E1"), Some(dec(false, 50, 0)));
    assert_eq!(parse_decimal("2.5e-2"), Some(dec(false, 25, 3)));
    assert_eq!(parse_decimal("1e+2"), Some(dec(false, 100, 0)));
    assert_eq!(parse_decimal("-3.0E0"), Some(dec(true, 3, 0)));
    assert_eq!(parse_decimal(".5e1"), Some(dec(false, 5, 0)));
    assert_eq!(parse_decimal("5.e-1"), Some(dec(false, 5, 1)));
    assert_eq!(parse_decimal("1e19"), Some(dec(false, 10_000_000_000_000_000_000, 0)));
    assert_eq!(parse_decimal("0e99999999999999999999999999999999"), Some(dec(false, 0, 0)));
    assert_eq!(parse_decimal("1e"), None);
    assert_eq!(parse_decimal("1e+"), None);
    assert_eq!(parse_decimal("e5"), None);
    assert_eq!(parse_decimal("1e5e3"), None);
    assert_eq!(parse_decimal("1e1.5"), None);
}

#[test]
fn parse_decimal_reads_long_literals() {
    assert_eq!(parse_decimal("0.10000000000000000000"), Some(dec(false, 1, 1)));
    assert_eq!(parse_decimal("100000000000000000000000000e-26"), Some(dec(false, 1, 0)));
    assert_eq!(
        parse_decimal("0.0000000000000000001"),
        Some(dec(false, 1, 19))
    );
}

#[test]
fn parse_decimal_rejects_what_a_decimal_cannot_hold() {
    assert_eq!(parse_decimal("1e20"), None);
    assert_eq!(parse_decimal("1e-20"), None);
    assert_eq!(parse_decimal("1e99999999999999999999999999999999"), None);
    assert_eq!(parse_decimal("1e-99999999999999999999999999999999"), None);
    assert_eq!(parse_decimal("18446744073709551616"), None);
    assert_eq!(parse_decimal("inf"), None);
    assert_eq!(parse_decimal("NaN"), None);
}

#[test]
fn fraction_flag_in_exponent_notation() {
    assert_eq!(decode_fraction(&some("1e-1")), dec(false, 1, 1));
    assert_eq!(decode_fraction(&some("5E1")), dec(false, 50, 2));
    assert_eq!(decode_fraction(&some("2.5e-2")), dec(false, 25, 3));
}

#[test]
fn fraction_above_one_is_a_percentage() {
    assert_eq!(decode_fraction(&some("50")), dec(false, 50, 2));
    assert_eq!(decode_fraction(&some("12.5")), dec(false, 125, 3));
    assert_eq!(decode_fraction(&some("1.01")), dec(false, 101, 4));
}

#[test]
fn fraction_up_to_one_is_kept() {
    assert_eq!(decode_fraction(&some("0.25")), dec(false, 25, 2));
    assert_eq!(decode_fraction(&some("1")), dec(false, 1, 0));
    assert_eq!(decode_fraction(&some("1.0")), dec(false, 1, 0));
    assert_eq!(decode_fraction(&some("-2")), dec(true, 2, 0));
}

#[test]
fn unparsable_fraction_is_zero_and_absent_is_a_tenth() {
    assert_eq!(decode_fraction(&some("lots")), Decimal::zero());
    assert_eq!(decode_fraction(&None), dec(false, 1, 1));
}

#[test]
fn decimal_text_is_shortest_form() {
    assert_eq!(dec(false, 1, 1).to_text(), "0.1");
    assert_eq!(dec(false, 50, 2).to_text(), "0.5");
    assert_eq!(dec(false, 125, 3).to_text(), "0.125");
    assert_eq!(dec(false, 1250, 2).to_text(), "12.5");
    assert_eq!(dec(false, 300, 2).to_text(), "3");
    assert_eq!(dec(false, 7, 0).to_text(), "7");
    assert_eq!(dec(true, 5, 1).to_text(), "-0.5");
    assert_eq!(dec(false, 1, 7).to_text(), "0.0000001");
    assert_eq!(Decimal::zero().to_text(), "0");
}

#[test]
fn exceeds_one_compares_with_the_scale() {
    assert!(dec(false, 11, 1).exceeds_one());
    assert!(!dec(false, 10, 1).exceeds_one());
    assert!(!dec(true, 50, 0).exceeds_one());
    assert!(dec(false, u64::MAX, 19).exceeds_one());
    assert!(!dec(false, u64::MAX, 20).exceeds_one());
}

#[test]
fn config_requires_a_matrix() {
    let flags = Flags::default();
    assert_eq!(
        config_from_flags(&flags, "/home/u").unwrap_err(),
        RunError::MissingRequiredArgument
    );
}

#[test]
fn config_applies_defaults() {
    let flags = Flags { matrix: some("m.csv"), ..Flags::default() };
    let c = config_from_flags(&flags, "/home/u").unwrap();
    assert_eq!(c.matrix, "m.csv");
    assert_eq!(c.metadata, None);
    assert_eq!(c.bin_dir, None);
    assert_eq!(c.distance, 1000);
    assert_eq!(c.euc_dist_percent, dec(false, 1, 1));
    assert_eq!(c.num_threads, 12);
    assert_eq!(c.num_scans, 100000);
    assert_eq!(c.out_dir, "/home/u/gbme-out");
}

#[test]
fn config_default_out_dir_under_root() {
    let flags = Flags { matrix: some("m.csv"), ..Flags::default() };
    assert_eq!(config_from_flags(&flags, "/").unwrap().out_dir, "/gbme-out");
}

#[test]
fn config_takes_given_values() {
    let flags = Flags {
        matrix: some("m.csv"),
        metadata: some("meta.tab"),
        out_dir: some("/tmp/out"),
        euc_dist_percent: some("20"),
        distance: some("x"),
        scans: some("500"),
        threads: some("99"),
        bin_dir: some("/opt/tools"),
    };
    let c = config_from_flags(&flags, "/home/u").unwrap();
    assert_eq!(c.metadata, some("meta.tab"));
    assert_eq!(c.bin_dir, some("/opt/tools"));
    assert_eq!(c.distance, 0);
    assert_eq!(c.euc_dist_percent, dec(false, 20, 2));
    assert_eq!(c.num_threads, 0);
    assert_eq!(c.num_scans, 500);
    assert_eq!(c.out_dir, "/tmp/out");
}
