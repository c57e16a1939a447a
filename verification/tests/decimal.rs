use dvious::util::decimal::push_decimal;

fn numeral(n: u64) -> String {
    let mut text = String::new();
    push_decimal(&mut text, n);
    text
}

#[test]
fn numerals_have_no_leading_zeros() {
    assert_eq!(numeral(0), "0");
    assert_eq!(numeral(7), "7");
    assert_eq!(numeral(10), "10");
    assert_eq!(numeral(109), "109");
    assert_eq!(numeral(1_234_567_890), "1234567890");
    assert_eq!(numeral(u64::MAX), "18446744073709551615");
}

#[test]
fn numerals_are_appended() {
    let mut text = String::from("[");
    push_decimal(&mut text, 14);
    text.push_str("]..[");
    push_decimal(&mut text, 13);
    text.push(']');

    assert_eq!(text, "[14]..[13]");
}
