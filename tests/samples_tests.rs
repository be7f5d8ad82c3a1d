use grass_origin::geometry::{Offset, Position};
use grass_origin::samples::{is_space_char, parse_integer, parse_line, parse_samples, LoadError};

fn chars(s: &str) -> Vec<char> {
    s.chars().collect()
}

fn sample(x: i32, y: i32, z: i32, ox: i8, oy: i8, oz: i8) -> (Position, Offset) {
    (Position { x, y, z }, Offset { x: ox, y: oy, z: oz })
}

#[test]
fn parses_lines_of_six_integers() {
    let text = chars("0 64 0 2 -8 -5\n-12 63 +7 0 15 -3\n");
    assert_eq!(
        parse_samples(&text),
        Ok(vec![sample(0, 64, 0, 2, -8, -5), sample(-12, 63, 7, 0, 15, -3)])
    );
}

#[test]
fn five_integers_fail_the_load() {
    let text = chars("0 64 0 2 -8 -5\n1 2 3 4 5\n");
    assert_eq!(parse_samples(&text), Err(LoadError::Malformed { line: 1 }));
    assert_eq!(parse_samples(&chars("1 2 3 4 5")), Err(LoadError::Malformed { line: 0 }));
}

#[test]
fn empty_text_is_refused() {
    assert_eq!(parse_samples(&chars("")), Err(LoadError::Empty));
}

#[test]
fn blank_line_is_malformed() {
    assert_eq!(parse_samples(&chars("\n")), Err(LoadError::Malformed { line: 0 }));
    assert_eq!(
        parse_samples(&chars("1 2 3 4 5 6\n\n1 2 3 4 5 6")),
        Err(LoadError::Malformed { line: 1 })
    );
}

#[test]
fn windows_line_ends_and_extra_words() {
    let text = chars("1\t2  3 4 5 6 7 junk\r\n-1 -2 -3 -4 -5 -6\r\n");
    assert_eq!(
        parse_samples(&text),
        Ok(vec![sample(1, 2, 3, 4, 5, 6), sample(-1, -2, -3, -4, -5, -6)])
    );
}

#[test]
fn unicode_spaces_separate_words() {
    let text = chars("1\u{a0}2\u{3000}3 4 5\u{2003}6");
    assert_eq!(parse_samples(&text), Ok(vec![sample(1, 2, 3, 4, 5, 6)]));
    assert!(is_space_char('\u{85}'));
    assert!(!is_space_char('x'));
    assert!(!is_space_char('\u{200b}'));
}

#[test]
fn out_of_range_values_fail() {
    assert_eq!(parse_line(&chars("1 2 3 128 0 0")), None);
    assert_eq!(parse_line(&chars("1 2 3 -128 127 0")), Some(sample(1, 2, 3, -128, 127, 0)));
    assert_eq!(parse_line(&chars("2147483648 2 3 0 0 0")), None);
    assert_eq!(
        parse_line(&chars("-2147483648 2147483647 0 0 0 0")),
        Some(sample(i32::MIN, i32::MAX, 0, 0, 0, 0))
    );
}

#[test]
fn integer_syntax() {
    assert_eq!(parse_integer(&chars("42"), -100, 100), Some(42));
    assert_eq!(parse_integer(&chars("+42"), -100, 100), Some(42));
    assert_eq!(parse_integer(&chars("-007"), -100, 100), Some(-7));
    assert_eq!(parse_integer(&chars("-"), -100, 100), None);
    assert_eq!(parse_integer(&chars("+"), -100, 100), None);
    assert_eq!(parse_integer(&chars(""), -100, 100), None);
    assert_eq!(parse_integer(&chars("4x"), -100, 100), None);
    assert_eq!(parse_integer(&chars("--4"), -100, 100), None);
    assert_eq!(parse_integer(&chars("101"), -100, 100), None);
    assert_eq!(parse_integer(&chars("-101"), -100, 100), None);
    assert_eq!(parse_integer(&chars("99999999999999999999999"), -100, 100), None);
    assert_eq!(parse_integer(&chars("0000000000000000000000100"), -100, 100), Some(100));
}
