use minishell::number::{parse_exit_code, render};

#[test]
fn parse_plain_digits() {
    assert_eq!(parse_exit_code("7"), Some(7));
    assert_eq!(parse_exit_code("0"), Some(0));
    assert_eq!(parse_exit_code("120"), Some(120));
}

#[test]
fn parse_signs() {
    assert_eq!(parse_exit_code("-1"), Some(-1));
    assert_eq!(parse_exit_code("+15"), Some(15));
    assert_eq!(parse_exit_code("-0"), Some(0));
}

#[test]
fn parse_leading_zeros() {
    assert_eq!(parse_exit_code("007"), Some(7));
    assert_eq!(parse_exit_code("00000000000000000000042"), Some(42));
}

#[test]
fn parse_bounds_of_32_bits() {
    assert_eq!(parse_exit_code("2147483647"), Some(i32::MAX));
    assert_eq!(parse_exit_code("-2147483648"), Some(i32::MIN));
    assert_eq!(parse_exit_code("2147483648"), None);
    assert_eq!(parse_exit_code("-2147483649"), None);
    assert_eq!(parse_exit_code("99999999999999999999999"), None);
}

#[test]
fn parse_refuses_what_is_no_integer() {
    assert_eq!(parse_exit_code(""), None);
    assert_eq!(parse_exit_code("abc"), None);
    assert_eq!(parse_exit_code("-"), None);
    assert_eq!(parse_exit_code("+"), None);
    assert_eq!(parse_exit_code("1a"), None);
    assert_eq!(parse_exit_code("1 "), None);
    assert_eq!(parse_exit_code(" 1"), None);
    assert_eq!(parse_exit_code("--1"), None);
    assert_eq!(parse_exit_code("1-"), None);
    assert_eq!(parse_exit_code("1.0"), None);
    assert_eq!(parse_exit_code("\u{0661}"), None);
    assert_eq!(parse_exit_code("99999999999x"), None);
}

#[test]
fn parse_agrees_with_the_standard_library() {
    let samples = [
        "0", "-0", "+0", "12", "-12", "+12", "0012", "2147483647", "2147483648", "-2147483648",
        "-2147483649", "", "+", "-", "+-1", "1_000", "0x10", "١٢", " 3", "3 ", "4294967296",
    ];
    for sample in samples {
        assert_eq!(parse_exit_code(sample), sample.parse::<i32>().ok(), "{:?}", sample);
    }
}

#[test]
fn render_exact_values() {
    assert_eq!(render(0), "0");
    assert_eq!(render(7), "7");
    assert_eq!(render(10), "10");
    assert_eq!(render(-42), "-42");
    assert_eq!(render(i32::MAX), "2147483647");
    assert_eq!(render(i32::MIN), "-2147483648");
}

#[test]
fn render_reads_back() {
    for n in [0, 1, -1, 9, 10, 99, 100, 255, -255, 65536, i32::MAX, i32::MIN] {
        assert_eq!(parse_exit_code(&render(n)), Some(n));
        assert_eq!(render(n), n.to_string());
    }
}
