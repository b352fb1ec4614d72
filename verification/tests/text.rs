use gitlasso::text::{clear_line, decimal, join, pad_right, spaces};

#[test]
fn decimal_writes_numbers_as_digits() {
    assert_eq!(decimal(0), "0");
    assert_eq!(decimal(7), "7");
    assert_eq!(decimal(10), "10");
    assert_eq!(decimal(1234567890), "1234567890");
    assert_eq!(decimal(usize::MAX), usize::MAX.to_string());
}

#[test]
fn spaces_and_padding() {
    assert_eq!(spaces(0), "");
    assert_eq!(spaces(3), "   ");
    assert_eq!(pad_right("ab", 5), "ab   ");
    assert_eq!(pad_right("abcdef", 5), "abcdef");
    assert_eq!(pad_right("h\u{e9}", 4), "h\u{e9}  ");
    assert_eq!(join("ab", "cd"), "abcd");
    assert_eq!(clear_line(), "\x1B[2K");
}
