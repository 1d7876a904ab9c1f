use file_browser::text::{chars_of, push_decimal, push_padded};

fn decimal(n: u64) -> String {
    let mut v = Vec::new();
    push_decimal(&mut v, n);
    v.into_iter().collect()
}

fn padded(n: u64, width: usize) -> String {
    let mut v = Vec::new();
    push_padded(&mut v, n, width);
    v.into_iter().collect()
}

#[test]
fn decimal_rendering() {
    assert_eq!(decimal(0), "0");
    assert_eq!(decimal(7), "7");
    assert_eq!(decimal(10), "10");
    assert_eq!(decimal(1234567890), "1234567890");
    assert_eq!(decimal(u64::MAX), "18446744073709551615");
}

#[test]
fn padded_rendering() {
    assert_eq!(padded(5, 2), "05");
    assert_eq!(padded(42, 2), "42");
    assert_eq!(padded(123, 2), "123");
    assert_eq!(padded(0, 4), "0000");
    assert_eq!(padded(9, 0), "9");
}

#[test]
fn chars_of_keeps_every_character() {
    assert_eq!(chars_of("a/é/☃"), vec!['a', '/', 'é', '/', '☃']);
    assert!(chars_of("").is_empty());
}
