use redis_kv::decimal::{decimal_string, parse_u64};
use redis_kv::text::{
    chars_of, contains_ignore_case, eq_ignore_case, str_eq, to_lower, utf8_len_of, Lines,
};

fn lines_of(source: &str) -> Vec<String> {
    let lines = Lines::new(source);
    let mut out = Vec::new();
    for i in 0..lines.len() {
        out.push(lines.text(i));
    }
    out
}

#[test]
fn test_lines_of_empty_buffer() {
    assert_eq!(lines_of(""), Vec::<String>::new());
}

#[test]
fn test_lines_with_terminators() {
    assert_eq!(lines_of("*1\r\n$4\r\nPING\r\n"), vec!["*1", "$4", "PING"]);
}

#[test]
fn test_lines_last_line_without_terminator() {
    assert_eq!(lines_of("a\nb"), vec!["a", "b"]);
}

#[test]
fn test_lines_keep_trailing_carriage_return_of_unterminated_line() {
    assert_eq!(lines_of("foo\r\nbar\n\nbaz\r"), vec!["foo", "bar", "", "baz\r"]);
}

#[test]
fn test_lines_bare_carriage_return_stays() {
    assert_eq!(lines_of("a\rb\n"), vec!["a\rb"]);
}

#[test]
fn test_lines_strip_one_carriage_return_only() {
    assert_eq!(lines_of("a\r\r\n"), vec!["a\r"]);
}

#[test]
fn test_lines_empty_lines() {
    assert_eq!(lines_of("\n\r\n\n"), vec!["", "", ""]);
}

#[test]
fn test_lines_agree_with_std() {
    for source in ["", "\n", "a", "a\n", "a\r\n\r\nb", "x\r", "\r\n", "\u{e9}\n\u{1f600}\r\nz"] {
        let expected: Vec<String> = source.lines().map(String::from).collect();
        assert_eq!(lines_of(source), expected);
    }
}

#[test]
fn test_line_slices_and_chars() {
    let lines = Lines::new("h\u{e9}\r\nyo");
    assert_eq!(lines.len(), 2);
    assert_eq!(lines.slice(0), "h\u{e9}");
    assert_eq!(lines.line(0), ['h', '\u{e9}']);
    assert_eq!(lines.line(1), ['y', 'o']);
}

#[test]
fn test_chars_of() {
    assert_eq!(chars_of("a\u{e9}z"), vec!['a', '\u{e9}', 'z']);
    assert_eq!(chars_of(""), Vec::<char>::new());
}

#[test]
fn test_to_lower() {
    assert_eq!(to_lower('A'), 'a');
    assert_eq!(to_lower('Z'), 'z');
    assert_eq!(to_lower('m'), 'm');
    assert_eq!(to_lower('@'), '@');
    assert_eq!(to_lower('['), '[');
    assert_eq!(to_lower('\u{c9}'), '\u{c9}');
}

#[test]
fn test_eq_ignore_case() {
    assert!(eq_ignore_case(&chars_of("PiNg"), &chars_of("ping")));
    assert!(!eq_ignore_case(&chars_of("ping"), &chars_of("pong")));
    assert!(!eq_ignore_case(&chars_of("ping"), &chars_of("pings")));
    assert!(eq_ignore_case(&[], &[]));
}

#[test]
fn test_str_eq() {
    assert!(str_eq("replication", "replication"));
    assert!(!str_eq("replication", "Replication"));
    assert!(!str_eq("a", "ab"));
    assert!(str_eq("", ""));
}

#[test]
fn test_contains_ignore_case() {
    assert!(contains_ignore_case("+PONG\r\n", "pong"));
    assert!(contains_ignore_case("xxOkxx", "ok"));
    assert!(contains_ignore_case("ok", "ok"));
    assert!(contains_ignore_case("anything", ""));
    assert!(contains_ignore_case("", ""));
    assert!(!contains_ignore_case("", "ok"));
    assert!(!contains_ignore_case("o", "ok"));
    assert!(!contains_ignore_case("-ERR no", "ok"));
    assert!(!contains_ignore_case("po ng", "pong"));
}

#[test]
fn test_utf8_len_of() {
    assert_eq!(utf8_len_of(&chars_of("")), 0);
    assert_eq!(utf8_len_of(&chars_of("hello")), 5);
    assert_eq!(utf8_len_of(&chars_of("\u{7f}")), 1);
    assert_eq!(utf8_len_of(&chars_of("\u{80}")), 2);
    assert_eq!(utf8_len_of(&chars_of("\u{7ff}")), 2);
    assert_eq!(utf8_len_of(&chars_of("\u{800}")), 3);
    assert_eq!(utf8_len_of(&chars_of("\u{ffff}")), 3);
    assert_eq!(utf8_len_of(&chars_of("\u{10000}")), 4);
    assert_eq!(utf8_len_of(&chars_of("a\u{e9}\u{20ac}\u{1f600}")), 10);
}

#[test]
fn test_parse_u64() {
    assert_eq!(parse_u64(&chars_of("0")), Some(0));
    assert_eq!(parse_u64(&chars_of("42")), Some(42));
    assert_eq!(parse_u64(&chars_of("+42")), Some(42));
    assert_eq!(parse_u64(&chars_of("007")), Some(7));
    assert_eq!(parse_u64(&chars_of("18446744073709551615")), Some(u64::MAX));
}

#[test]
fn test_parse_u64_rejects() {
    assert_eq!(parse_u64(&chars_of("")), None);
    assert_eq!(parse_u64(&chars_of("+")), None);
    assert_eq!(parse_u64(&chars_of("-1")), None);
    assert_eq!(parse_u64(&chars_of("++1")), None);
    assert_eq!(parse_u64(&chars_of("1+")), None);
    assert_eq!(parse_u64(&chars_of("12a")), None);
    assert_eq!(parse_u64(&chars_of(" 1")), None);
    assert_eq!(parse_u64(&chars_of("1_000")), None);
    assert_eq!(parse_u64(&chars_of("18446744073709551616")), None);
    assert_eq!(parse_u64(&chars_of("99999999999999999999999")), None);
    assert_eq!(parse_u64(&chars_of("\u{663}")), None);
}

#[test]
fn test_parse_u64_agrees_with_std() {
    for text in ["0", "+0", "5", "+5", "-5", "", "+", "abc", "18446744073709551615", "18446744073709551616", "0x10"] {
        assert_eq!(parse_u64(&chars_of(text)), text.parse::<u64>().ok());
    }
}

#[test]
fn test_decimal_string() {
    assert_eq!(decimal_string(0), "0");
    assert_eq!(decimal_string(9), "9");
    assert_eq!(decimal_string(10), "10");
    assert_eq!(decimal_string(88), "88");
    assert_eq!(decimal_string(6379), "6379");
    assert_eq!(decimal_string(u64::MAX as u128), "18446744073709551615");
    assert_eq!(decimal_string(u128::MAX), "340282366920938463463374607431768211455");
}

#[test]
fn test_numeral_read_back() {
    for n in [0u64, 1, 9, 10, 99, 100, 12345, u64::MAX] {
        assert_eq!(parse_u64(&chars_of(&decimal_string(n as u128))), Some(n));
    }
}

#[test]
fn test_lines_of_text_beyond_ascii() {
    let source = "\u{1f600}\u{e9}\r\n\r\n\u{20ac}uro\n\u{7ff}";
    assert_eq!(lines_of(source), vec!["\u{1f600}\u{e9}", "", "\u{20ac}uro", "\u{7ff}"]);
    let lines = Lines::new(source);
    assert_eq!(lines.slice(2), "\u{20ac}uro");
    assert_eq!(lines.slice(1), "");
    assert_eq!(lines.slice(3), "\u{7ff}");
}
