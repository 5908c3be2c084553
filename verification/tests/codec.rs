use spd3303x::commands::Channel;
use spd3303x::text;
use spd3303x::{check_empty, match_literal, read_all, read_exact, read_until, read_while};
use spd3303x::{EmptyResponse, Error, ScpiDeserialize, ScpiSerialize};

#[test]
fn test_check_empty() {
    assert!(check_empty(&mut "").is_ok());
    assert!(check_empty(&mut "x").is_err());
}

#[test]
fn test_read_exact() {
    let input = &mut "1234";
    assert_eq!(read_exact(input, 2).unwrap(), "12");
    assert!(read_exact(input, 3).is_err());
    assert_eq!(read_exact(input, 2).unwrap(), "34");
    assert!(check_empty(input).is_ok());
}

#[test]
fn test_match_literal() {
    let input = &mut "1234";
    assert!(match_literal(input, "12").is_ok());
    assert!(match_literal(input, "12").is_err());
    assert!(match_literal(input, "34").is_ok());
    assert!(check_empty(input).is_ok());
}

#[test]
fn test_read_until() {
    let input = &mut "12,34";
    assert_eq!(read_until(input, ',').unwrap(), "12");
    assert!(match_literal(input, "34").is_ok());
    assert!(check_empty(input).is_ok());
}

#[test]
fn test_read_while() {
    let input = &mut "12,34";
    assert_eq!(read_while(input, char::is_numeric), "12");
    assert!(match_literal(input, ",").is_ok());
    assert_eq!(read_while(input, char::is_numeric), "34");
    assert!(check_empty(input).is_ok());
}

#[test]
fn test_read_all() {
    let input = &mut "12,34\nasdf";
    assert_eq!(read_all(input).unwrap(), "12,34");
    assert!(match_literal(input, "asdf").is_ok());
}

fn decoding_detail(error: Error) -> String {
    match error {
        Error::ResponseDecoding(detail) => detail,
        other => panic!("not a decoding fault: {:?}", other),
    }
}

#[test]
fn match_literal_failure_names_literal_and_input() {
    let input = &mut "1234";
    let error = match_literal(input, "13").unwrap_err();
    assert_eq!(decoding_detail(error), "Expected literal `13` not matched `1234`");
    assert_eq!(*input, "1234");
}

#[test]
fn match_literal_is_case_exact_and_anchored() {
    let input = &mut "xCH1";
    assert!(match_literal(input, "CH1").is_err());
    assert_eq!(*input, "xCH1");
    let input = &mut "ch1";
    assert!(match_literal(input, "CH1").is_err());
    assert_eq!(*input, "ch1");
}

#[test]
fn match_literal_longer_than_input_fails() {
    let input = &mut "CH";
    assert!(match_literal(input, "CH1").is_err());
    assert_eq!(*input, "CH");
    assert!(match_literal(input, "").is_ok());
    assert_eq!(*input, "CH");
}

#[test]
fn read_until_without_delimiter_fails_in_place() {
    let input = &mut "1234";
    let error = read_until(input, ',').unwrap_err();
    assert_eq!(decoding_detail(error), "Expected `,` in `1234`");
    assert_eq!(*input, "1234");
}

#[test]
fn read_until_stops_at_first_delimiter() {
    let input = &mut ",a,b";
    assert_eq!(read_until(input, ',').unwrap(), "");
    assert_eq!(*input, "a,b");
    assert_eq!(read_until(input, ',').unwrap(), "a");
    assert_eq!(*input, "b");
}

#[test]
fn read_while_may_take_nothing_or_everything() {
    let input = &mut "abc";
    assert_eq!(read_while(input, char::is_numeric), "");
    assert_eq!(*input, "abc");
    assert_eq!(read_while(input, char::is_alphabetic), "abc");
    assert_eq!(*input, "");
    assert_eq!(read_while(input, char::is_alphabetic), "");
}

#[test]
fn read_exact_counts_characters() {
    let input = &mut "äöü!";
    assert_eq!(read_exact(input, 3).unwrap(), "äöü");
    assert_eq!(*input, "!");
    let error = read_exact(input, 12).unwrap_err();
    assert_eq!(decoding_detail(error), "Failed to read 12 characters from `!`");
    assert_eq!(*input, "!");
    assert_eq!(read_exact(input, 0).unwrap(), "");
}

#[test]
fn read_all_needs_a_line_feed() {
    let input = &mut "no end";
    let error = read_all(input).unwrap_err();
    assert_eq!(decoding_detail(error), "Expected `\n` in `no end`");
    assert_eq!(*input, "no end");
}

#[test]
fn check_empty_shows_what_is_left() {
    let input = &mut "rest";
    let error = check_empty(input).unwrap_err();
    assert_eq!(
        decoding_detail(error),
        "Response should be empty/fully deserialized, but still has content: `rest`"
    );
    assert_eq!(*input, "rest");
}

#[test]
fn number_is_longest_run_of_digits() {
    let input = &mut "0042,7";
    assert_eq!(u16::deserialize(input).unwrap(), 42);
    assert_eq!(*input, ",7");
    let input = &mut "65535x";
    assert_eq!(u16::deserialize(input).unwrap(), 65535);
    assert_eq!(*input, "x");
}

#[test]
fn number_faults_leave_the_cursor() {
    let input = &mut "65536";
    let error = u16::deserialize(input).unwrap_err();
    assert_eq!(decoding_detail(error), "Number parsing failed: 65536");
    assert_eq!(*input, "65536");
    let input = &mut "x1";
    let error = u16::deserialize(input).unwrap_err();
    assert_eq!(decoding_detail(error), "Number parsing failed: ");
    assert_eq!(*input, "x1");
    let input = &mut "99999999999999999999999";
    assert!(u16::deserialize(input).is_err());
    assert_eq!(*input, "99999999999999999999999");
}

#[test]
fn empty_response_takes_nothing() {
    let input = &mut "anything";
    assert!(EmptyResponse::deserialize(input).is_ok());
    assert_eq!(*input, "anything");
}

#[test]
fn absent_value_writes_nothing() {
    let mut out = String::from("x");
    let none: Option<Channel> = None;
    none.serialize(&mut out);
    assert_eq!(out, "x");
    Some(Channel::Two).serialize(&mut out);
    assert_eq!(out, "xCH2");
}

#[test]
fn fault_messages_have_the_heading_of_their_kind() {
    assert_eq!(
        Error::ResponseDecoding("a".to_string()).message(),
        "Received data does not match expected format: a"
    );
    assert_eq!(Error::IoError("b".to_string()).message(), "Underlying I/O error: b");
    assert_eq!(Error::ConnectFailed("c".to_string()).message(), "Failed to connect: c");
    assert_eq!(Error::SerialMismatch("d".to_string()).message(), "Serial mismatch: d");
    assert_eq!(Error::Other("e".to_string()).message(), "Other: e");
}

#[test]
fn digits_and_white_space_are_told_apart() {
    assert!(text::is_digit_char('0') && text::is_digit_char('9'));
    assert!(!text::is_digit_char('/') && !text::is_digit_char(':') && !text::is_digit_char('٣'));
    assert!(text::is_hex_digit_char('a') && text::is_hex_digit_char('F'));
    assert!(!text::is_hex_digit_char('g') && !text::is_hex_digit_char('G'));
    for c in ['\t', '\n', '\r', ' ', '\u{a0}', '\u{2003}', '\u{3000}'] {
        assert!(text::is_whitespace_char(c));
        assert!(c.is_whitespace());
    }
    for code in 0..0x3100u32 {
        if let Some(c) = char::from_u32(code) {
            assert_eq!(text::is_whitespace_char(c), c.is_whitespace());
        }
    }
}

#[test]
fn trim_removes_white_space_at_both_ends() {
    assert_eq!(text::trim("  a b\t\n"), "a b");
    assert_eq!(text::trim("   "), "");
    assert_eq!(text::trim(""), "");
    assert_eq!(text::trim("x"), "x");
}

#[test]
fn decimal_text_has_no_leading_zeros() {
    let mut out = String::new();
    text::push_decimal(0, &mut out);
    out.push(' ');
    text::push_decimal(7, &mut out);
    out.push(' ');
    text::push_decimal(10000, &mut out);
    out.push(' ');
    text::push_decimal(u64::MAX, &mut out);
    assert_eq!(out, "0 7 10000 18446744073709551615");
    let mut out = String::new();
    text::push_three_digits(5, &mut out);
    text::push_three_digits(999, &mut out);
    assert_eq!(out, "005999");
}

#[test]
fn values_of_digit_texts() {
    assert_eq!(text::decimal_of("0"), Some(0));
    assert_eq!(text::decimal_of("65535"), Some(65535));
    assert_eq!(text::decimal_of("65536"), None);
    assert_eq!(text::decimal_of(""), None);
    assert_eq!(text::hex_of("0224"), Some(0x0224));
    assert_eq!(text::hex_of("fFfF"), Some(0xffff));
    assert_eq!(text::hex_of("10000"), None);
    assert_eq!(text::hex_of(""), None);
    assert!(text::same_text("abc", "abc"));
    assert!(!text::same_text("abc", "abd"));
    assert!(!text::same_text("abc", "ab"));
}
