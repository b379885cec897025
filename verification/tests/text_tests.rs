use vproxy::text::{chars_of, parse_u16, push_decimal, read_u16};

fn parse(text: &str) -> Option<u16> {
    parse_u16(&chars_of(text))
}

#[test]
fn chars_of_keeps_every_character_in_order() {
    assert_eq!(chars_of(""), Vec::<char>::new());
    assert_eq!(chars_of("a_1"), vec!['a', '_', '1']);
    assert_eq!(chars_of("h\u{e9}llo"), vec!['h', '\u{e9}', 'l', 'l', 'o']);
}

#[test]
fn plain_digits_are_read() {
    assert_eq!(parse("0"), Some(0));
    assert_eq!(parse("80"), Some(80));
    assert_eq!(parse("8080"), Some(8080));
    assert_eq!(parse("65535"), Some(65535));
}

#[test]
fn a_leading_plus_and_leading_zeros_are_accepted() {
    assert_eq!(parse("+8080"), Some(8080));
    assert_eq!(parse("008080"), Some(8080));
    assert_eq!(parse("+0"), Some(0));
    assert_eq!(parse("0000000000000000000001"), Some(1));
}

#[test]
fn what_is_no_number_is_refused() {
    assert_eq!(parse(""), None);
    assert_eq!(parse("+"), None);
    assert_eq!(parse("-"), None);
    assert_eq!(parse("-1"), None);
    assert_eq!(parse("++1"), None);
    assert_eq!(parse("80a"), None);
    assert_eq!(parse("a80"), None);
    assert_eq!(parse("8 0"), None);
    assert_eq!(parse(" 80"), None);
    assert_eq!(parse("\u{663}"), None);
}

#[test]
fn a_number_that_does_not_fit_is_refused() {
    assert_eq!(parse("65536"), None);
    assert_eq!(parse("70000"), None);
    assert_eq!(parse("655350"), None);
    assert_eq!(parse("99999999999999999999999999"), None);
}

#[test]
fn read_u16_takes_no_sign() {
    assert_eq!(read_u16(&chars_of("8080")), Some(8080));
    assert_eq!(read_u16(&chars_of("+8080")), None);
    assert_eq!(read_u16(&chars_of("")), None);
}

#[test]
fn parsing_agrees_with_the_standard_parser() {
    let samples = [
        "", "0", "1", "+1", "-1", "+", "-", "007", "65535", "65536", "+65535", "+65536", "1e3",
        "0x10", "12_", "_12", "12 ", "4294967296", "\u{ff11}",
    ];
    for sample in samples {
        assert_eq!(parse(sample), sample.parse::<u16>().ok(), "on {:?}", sample);
    }
}

#[test]
fn decimal_text_of_given_numbers() {
    let mut s = String::new();
    push_decimal(&mut s, 0);
    assert_eq!(s, "0");
    let mut s = String::from("port ");
    push_decimal(&mut s, 8080);
    assert_eq!(s, "port 8080");
    let mut s = String::new();
    push_decimal(&mut s, 65535);
    assert_eq!(s, "65535");
    let mut s = String::new();
    push_decimal(&mut s, 10);
    assert_eq!(s, "10");
}

#[test]
fn every_number_reads_back_from_its_text() {
    let mut n: u16 = 0;
    loop {
        let mut s = String::new();
        push_decimal(&mut s, n);
        assert_eq!(s, format!("{}", n));
        assert_eq!(parse(&s), Some(n));
        if n == u16::MAX {
            break;
        }
        n += 1;
    }
}
