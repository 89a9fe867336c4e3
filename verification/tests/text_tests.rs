use rewms::text::{parse_i32, parse_u32, percent_decode, split_string, u32_to_string, i32_to_string};

#[test]
fn decimal_rendering() {
    assert_eq!(u32_to_string(0), "0");
    assert_eq!(u32_to_string(256), "256");
    assert_eq!(u32_to_string(u32::MAX), "4294967295");
    assert_eq!(i32_to_string(-2), "-2");
    assert_eq!(i32_to_string(i32::MIN), "-2147483648");
    assert_eq!(i32_to_string(7), "7");
}

#[test]
fn decimal_parsing() {
    assert_eq!(parse_u32("256"), Some(256));
    assert_eq!(parse_u32("4294967295"), Some(u32::MAX));
    assert_eq!(parse_u32("4294967296"), None);
    assert_eq!(parse_u32(""), None);
    assert_eq!(parse_u32("12a"), None);
    assert_eq!(parse_i32("-5"), Some(-5));
    assert_eq!(parse_i32("-2147483648"), Some(i32::MIN));
    assert_eq!(parse_i32("-2147483649"), None);
    assert_eq!(parse_i32("2147483647"), Some(i32::MAX));
    assert_eq!(parse_i32("2147483648"), None);
    assert_eq!(parse_i32("-"), None);
}

#[test]
fn percent_decoding() {
    assert_eq!(percent_decode("values%2Fdefault").as_deref(), Some("values/default"));
    assert_eq!(percent_decode("a+b%20c").as_deref(), Some("a b c"));
    assert_eq!(percent_decode("plain").as_deref(), Some("plain"));
    assert_eq!(percent_decode("%2"), None);
    assert_eq!(percent_decode("%zz"), None);
}

#[test]
fn splitting() {
    assert_eq!(split_string("a,b,,c", ','), vec!["a", "b", "", "c"]);
    assert_eq!(split_string("", ','), vec![""]);
    assert_eq!(split_string("abc", ','), vec!["abc"]);
}
