use opentelemetry_datadog::decimal::{format_i64, format_u64, parse_i32, parse_u64};

fn samples() -> Vec<String> {
    let mut out: Vec<String> = Vec::new();
    let words = [
        "", "+", "-", "++1", "--1", "+-1", "-+1", "0", "-0", "+0", "00", "007", "+007", "-007",
        "1", "9", "10", "42", "4 2", " 42", "42 ", "\t42", "42\n", "4_2", "0x2a", "2a", "a", "1e3",
        "1.0", "١٢٣", "４２", "٣", "½", "2147483647", "2147483648", "+2147483647", "+2147483648",
        "-2147483647", "-2147483648", "-2147483649", "4294967295", "4294967296",
        "9223372036854775807", "9223372036854775808", "-9223372036854775808",
        "18446744073709551615", "18446744073709551616", "+18446744073709551615",
        "-18446744073709551615", "018446744073709551615", "0000000000000000000000000000000001",
        "184467440737095516150", "99999999999999999999", "340282366920938463463374607431768211456",
        "999999999999999999999999999999999999999999999999999999999999", "1-", "1+", "+1+", "٠",
        "-", "−1", "1,000", "'1'",
    ];
    for w in words {
        out.push(w.to_string());
    }
    for n in 0..300i64 {
        out.push((n - 150).to_string());
        out.push(format!("+{}", n));
        out.push(format!("{:05}", n));
    }
    out
}

#[test]
fn unsigned_numbers_are_read_as_the_standard_library_reads_them() {
    for text in samples() {
        assert_eq!(parse_u64(&text), u64::from_str_radix(&text, 10).ok(), "{:?}", text);
    }
}

#[test]
fn signed_numbers_are_read_as_the_standard_library_reads_them() {
    for text in samples() {
        assert_eq!(parse_i32(&text), i32::from_str_radix(&text, 10).ok(), "{:?}", text);
    }
}

#[test]
fn reading_gives_the_number_written() {
    assert_eq!(parse_u64("0"), Some(0));
    assert_eq!(parse_u64("42"), Some(42));
    assert_eq!(parse_u64("+42"), Some(42));
    assert_eq!(parse_u64("0042"), Some(42));
    assert_eq!(parse_u64("18446744073709551615"), Some(u64::MAX));
    assert_eq!(parse_u64("18446744073709551616"), None);
    assert_eq!(parse_u64("-42"), None);
    assert_eq!(parse_u64(""), None);
    assert_eq!(parse_u64("+"), None);
    assert_eq!(parse_i32("-1"), Some(-1));
    assert_eq!(parse_i32("+2"), Some(2));
    assert_eq!(parse_i32("2147483647"), Some(i32::MAX));
    assert_eq!(parse_i32("-2147483648"), Some(i32::MIN));
    assert_eq!(parse_i32("2147483648"), None);
    assert_eq!(parse_i32("-2147483649"), None);
    assert_eq!(parse_i32("-"), None);
    assert_eq!(parse_i32("5x"), None);
}

#[test]
fn numbers_are_written_as_the_standard_library_writes_them() {
    let mut unsigned = vec![0u64, 1, 9, 10, 11, 99, 100, 101, 999, 1000, u64::MAX, u64::MAX - 1];
    let mut power = 1u64;
    for _ in 0..19 {
        power *= 10;
        unsigned.push(power - 1);
        unsigned.push(power);
        unsigned.push(power + 1);
    }
    for shift in 0..64 {
        unsigned.push(1 << shift);
        unsigned.push((1 << shift) - 1);
    }
    for n in unsigned {
        assert_eq!(format_u64(n), n.to_string());
        assert_eq!(parse_u64(&format_u64(n)), Some(n));
        for signed in [n as i64, (n as i64).wrapping_neg(), (n / 2) as i64, -((n / 2) as i64)] {
            assert_eq!(format_i64(signed), signed.to_string());
        }
    }
    assert_eq!(format_u64(0), "0");
    assert_eq!(format_u64(1203), "1203");
    assert_eq!(format_i64(-1203), "-1203");
    assert_eq!(format_i64(i64::MIN), "-9223372036854775808");
    assert_eq!(format_i64(i64::MAX), "9223372036854775807");
    for i in [i32::MIN, -10, -1, 0, 1, 2, 10, i32::MAX] {
        assert_eq!(parse_i32(&format_i64(i as i64)), Some(i));
    }
}
