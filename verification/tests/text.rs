use mario::text::{chars_of, decimal_string, parse_u64_range, push_padded4};

fn parse(s: &str) -> Option<u64> {
    let cs = chars_of(s);
    parse_u64_range(&cs, 0, cs.len())
}

#[test]
fn numbers_read_as_std_reads_them() {
    for s in ["0", "7", "+7", "007", "18446744073709551615", "18446744073709551616", "", "+", "-1", "1 ", " 1", "++1", "1a", "١"] {
        assert_eq!(parse(s), s.parse::<u64>().ok(), "{:?}", s);
    }
}

#[test]
fn decimals_are_written_as_std_writes_them() {
    for n in [0u64, 9, 10, 99, 100, 12345, u64::MAX] {
        assert_eq!(decimal_string(n), n.to_string());
        assert_eq!(parse(&decimal_string(n)), Some(n));
    }
}

#[test]
fn padding_reaches_four_digits() {
    for n in [0u64, 7, 37, 123, 4567, 98765] {
        let mut s = String::new();
        push_padded4(&mut s, n);
        assert_eq!(s, format!("{:04}", n));
    }
}
