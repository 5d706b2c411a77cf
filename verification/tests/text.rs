use regvm::text::{
    bytes_eq, char_to_string, digit, push_decimal, push_hex, push_signed, push_str, read_char,
    read_i64, read_integer, read_usize, scalar, splice, str_eq,
};

#[test]
fn numbers_are_written_in_decimal() {
    let mut s = String::from("n=");
    push_decimal(&mut s, 0);
    push_str(&mut s, ",");
    push_decimal(&mut s, 907);
    push_str(&mut s, ",");
    push_decimal(&mut s, u64::MAX);
    push_str(&mut s, ",");
    push_signed(&mut s, -45);
    push_str(&mut s, ",");
    push_signed(&mut s, i64::MIN);
    assert_eq!(s, "n=0,907,18446744073709551615,-45,-9223372036854775808");
}

#[test]
fn numbers_are_written_in_hexadecimal() {
    let mut s = String::new();
    push_hex(&mut s, 0);
    push_str(&mut s, " ");
    push_hex(&mut s, 5);
    push_str(&mut s, " ");
    push_hex(&mut s, 255);
    push_str(&mut s, " ");
    push_hex(&mut s, 4096);
    push_str(&mut s, " ");
    push_hex(&mut s, u64::MAX);
    assert_eq!(s, "0x00 0x05 0xff 0x1000 0xffffffffffffffff");
    assert_eq!(digit(9), '9');
    assert_eq!(digit(10), 'a');
    assert_eq!(digit(15), 'f');
}

#[test]
fn numbers_are_read_in_decimal() {
    assert_eq!(read_i64("123"), Some(123));
    assert_eq!(read_i64("-123"), Some(-123));
    assert_eq!(read_i64("+123"), Some(123));
    assert_eq!(read_i64("1x"), None);
    assert_eq!(read_i64("é"), None);
    assert_eq!(read_i64("--1"), None);
    assert_eq!(read_usize("0"), Some(0));
    assert_eq!(read_usize("-0"), None);
    assert_eq!(read_integer("-12", true), Some((true, 12)));
    assert_eq!(read_integer("-12", false), None);
    assert_eq!(read_integer("+12", false), Some((false, 12)));
    assert_eq!(
        read_integer("18446744073709551616", false),
        Some((false, 18446744073709551616))
    );
    assert_eq!(
        read_integer("18446744073709551617", false),
        Some((false, 18446744073709551617))
    );
    assert_eq!(
        read_integer("18446744073709551618", false),
        Some((false, 18446744073709551617))
    );
    assert_eq!(
        read_integer("999999999999999999999999999999999999999999", true),
        Some((false, 18446744073709551617))
    );
    assert_eq!(read_char("a"), Some('a'));
    assert_eq!(read_char("é"), Some('é'));
    assert_eq!(read_char(""), None);
    assert_eq!(read_char("ab"), None);
}

#[test]
fn text_is_written_over_text() {
    assert_eq!(splice("hello", 1, "EY"), Some("hEYlo".to_string()));
    assert_eq!(splice("hello", 0, "J"), Some("Jello".to_string()));
    assert_eq!(splice("abc", 2, "xyz"), Some("abxyz".to_string()));
    assert_eq!(splice("abc", 3, "xyz"), Some("abcxyz".to_string()));
    assert_eq!(splice("abc", 4, "x"), None);
    assert_eq!(splice("abc", 1, ""), Some("abc".to_string()));
    assert_eq!(splice("", 0, "x"), Some("x".to_string()));
    assert_eq!(splice("héy", 1, "ab"), Some("haby".to_string()));
    assert_eq!(splice("héy", 2, "a"), None);
    assert_eq!(splice("héy", 1, "a"), None);
    assert_eq!(splice("héy", 0, "ab"), None);
    assert_eq!(splice("héy", 3, "é!"), Some("hé\u{e9}!".to_string()));
}

#[test]
fn texts_are_compared() {
    assert!(str_eq("abc", "abc"));
    assert!(!str_eq("abc", "abd"));
    assert!(!str_eq("abc", "ab"));
    assert!(str_eq("", ""));
    assert!(bytes_eq(&[1, 2], &[1, 2]));
    assert!(!bytes_eq(&[1, 2], &[1, 3]));
    assert!(!bytes_eq(&[1, 2], &[1]));
    assert_eq!(char_to_string('é'), "é");
    assert_eq!(scalar('x'), 'x');
}
