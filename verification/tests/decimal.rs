use sqlquiz::decimal::{i64_to_string, parse_i32, parse_usize, u64_to_string};

#[test]
fn parse_usize_like_std() {
    for s in ["", "0", "7", "+7", "-0", "+", "-", "12a", " 1", "1 ", "007", "18446744073709551615", "18446744073709551616", "٣", "+-1"] {
        assert_eq!(parse_usize(s), s.parse::<usize>().ok(), "{s:?}");
    }
}

#[test]
fn parse_i32_like_std() {
    for s in ["", "0", "-0", "+5", "-5", "--5", "-+5", "+-5", "2147483647", "2147483648", "-2147483648", "-2147483649", "1e3", "x", "-", "+"] {
        assert_eq!(parse_i32(s), s.parse::<i32>().ok(), "{s:?}");
    }
}

#[test]
fn numbers_to_text_like_std() {
    for n in [0i64, 5, 10, 99, 100, -1, -10, 1234567, i64::MAX, i64::MIN] {
        assert_eq!(i64_to_string(n), n.to_string());
    }
    for n in [0u64, 9, 10, u64::MAX] {
        assert_eq!(u64_to_string(n), n.to_string());
    }
}

#[test]
fn decimal_text_reads_back() {
    for n in [0i32, 1, 9, 10, -1, -10, 2147483647, -2147483648] {
        assert_eq!(parse_i32(&i64_to_string(n as i64)), Some(n));
    }
    assert_eq!(parse_usize(&i64_to_string(42)), Some(42));
    assert_eq!(parse_usize(&i64_to_string(-42)), None);
}
