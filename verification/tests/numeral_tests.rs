use deep_roles::numerals::{i16_to_string, parse_i16};

#[test]
fn parses_plain_numerals() {
    assert_eq!(parse_i16("0"), Some(0));
    assert_eq!(parse_i16("12"), Some(12));
    assert_eq!(parse_i16("007"), Some(7));
    assert_eq!(parse_i16("+41"), Some(41));
    assert_eq!(parse_i16("-3"), Some(-3));
    assert_eq!(parse_i16("-0"), Some(0));
}

#[test]
fn parses_range_edges() {
    assert_eq!(parse_i16("32767"), Some(32767));
    assert_eq!(parse_i16("32768"), None);
    assert_eq!(parse_i16("-32768"), Some(-32768));
    assert_eq!(parse_i16("-32769"), None);
    assert_eq!(parse_i16("99999999999999999999"), None);
}

#[test]
fn rejects_non_numerals() {
    assert_eq!(parse_i16(""), None);
    assert_eq!(parse_i16("+"), None);
    assert_eq!(parse_i16("-"), None);
    assert_eq!(parse_i16("12a"), None);
    assert_eq!(parse_i16("a12"), None);
    assert_eq!(parse_i16("1.5"), None);
    assert_eq!(parse_i16(" 3"), None);
    assert_eq!(parse_i16("--5"), None);
}

#[test]
fn parser_agrees_with_std() {
    for s in ["0", "-0", "+007", "32767", "32768", "-32768", "-32769", "", "x", "1e3"] {
        assert_eq!(parse_i16(s), s.parse::<i16>().ok());
    }
}

#[test]
fn renders_numerals() {
    assert_eq!(i16_to_string(0), "0");
    assert_eq!(i16_to_string(7), "7");
    assert_eq!(i16_to_string(-3), "-3");
    assert_eq!(i16_to_string(120), "120");
    assert_eq!(i16_to_string(32767), "32767");
    assert_eq!(i16_to_string(-32768), "-32768");
}
