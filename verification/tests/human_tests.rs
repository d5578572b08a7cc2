use dfrs::human::human_format;

#[test]
fn test_format_zero() {
    assert_eq!(human_format(0, 1024), "0");
    assert_eq!(human_format(0, 1000), "0");
}

#[test]
fn test_format_below_radix() {
    assert_eq!(human_format(999, 1000), "999B");
    assert_eq!(human_format(1, 1024), "1B");
    assert_eq!(human_format(1023, 1024), "1023B");
}

#[test]
fn test_format_one_unit() {
    assert_eq!(human_format(1024, 1024), "1.0K");
    assert_eq!(human_format(1000, 1000), "1.0K");
}

#[test]
fn test_format_double_digit_drops_fraction() {
    assert_eq!(human_format(10_485_760, 1024), "10M");
}

#[test]
fn test_format_rounds_fraction_up() {
    assert_eq!(human_format(1025, 1024), "1.1K");
    assert_eq!(human_format(1536, 1024), "1.5K");
    assert_eq!(human_format(1100, 1000), "1.1K");
    assert_eq!(human_format(1101, 1000), "1.2K");
}

#[test]
fn test_format_fraction_carry() {
    // 10239/1024 is 9.999...: the fractional digit rounds to 10 and
    // carries into the integer part
    assert_eq!(human_format(10239, 1024), "10K");
}

#[test]
fn test_format_double_digit_rounds_up() {
    assert_eq!(human_format(10_485_761, 1024), "11M");
}

#[test]
fn test_format_larger_magnitudes() {
    assert_eq!(human_format(1024 * 1024, 1024), "1.0M");
    assert_eq!(human_format(1024 * 1024 * 1024, 1024), "1.0G");
    assert_eq!(human_format(1024u64.pow(4), 1024), "1.0T");
    assert_eq!(human_format(1024u64.pow(5), 1024), "1.0P");
    assert_eq!(human_format(1_000_000_000_000_000, 1000), "1.0P");
}

#[test]
fn test_format_clamps_at_largest_suffix() {
    // beyond the table the exponent stays at P and the integer grows
    assert_eq!(human_format(1024u64.pow(5) * 2048, 1024), "2048P");
}
