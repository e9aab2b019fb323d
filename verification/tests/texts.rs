use rng_rename::text::{string_of, symbols_of, usize_text};

#[test]
fn numbers_are_written_in_decimal_digits() {
    assert_eq!(usize_text(0), "0");
    assert_eq!(usize_text(7), "7");
    assert_eq!(usize_text(10), "10");
    assert_eq!(usize_text(1048576), "1048576");
    assert_eq!(usize_text(9090), "9090");
    assert_eq!(usize_text(usize::MAX), usize::MAX.to_string());
}

#[test]
fn a_text_and_its_symbols_are_the_same_thing() {
    assert_eq!(symbols_of("héllo"), vec!['h', 'é', 'l', 'l', 'o']);
    assert!(symbols_of("").is_empty());
    assert_eq!(string_of(&['a', 'ß', 'c']), "aßc");
    assert_eq!(string_of(&[]), "");
    assert_eq!(string_of(&symbols_of("round trip")), "round trip");
}
