use jrenamer::text::{chars_of, decimal_string, slice};

#[test]
fn decimal_numerals() {
    assert_eq!(decimal_string(0), "0");
    assert_eq!(decimal_string(7), "7");
    assert_eq!(decimal_string(9), "9");
    assert_eq!(decimal_string(10), "10");
    assert_eq!(decimal_string(12345), "12345");
    assert_eq!(decimal_string(1000000), "1000000");
    assert_eq!(decimal_string(9876543210), "9876543210");
    assert_eq!(decimal_string(u64::MAX), "18446744073709551615");
}

#[test]
fn decimal_numerals_agree_with_std() {
    for n in [1u64, 19, 20, 99, 100, 101, 4096, 65535, 1 << 40] {
        assert_eq!(decimal_string(n), n.to_string());
    }
}

#[test]
fn characters_of_a_string() {
    assert_eq!(chars_of(""), Vec::<char>::new());
    assert_eq!(chars_of("a#é"), vec!['a', '#', 'é']);
}

#[test]
fn slices_count_characters() {
    assert_eq!(slice("héllo", 1, 3), "él");
    assert_eq!(slice("héllo", 0, 5), "héllo");
    assert_eq!(slice("héllo", 2, 2), "");
}
