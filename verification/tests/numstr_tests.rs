use grader::{
    get_field, millis_to_seconds_string, parse_seconds_to_millis, parse_u64, split_lines,
    u64_to_string,
};

#[test]
fn formats_decimal_text() {
    assert_eq!(u64_to_string(0), "0");
    assert_eq!(u64_to_string(7), "7");
    assert_eq!(u64_to_string(1234), "1234");
    assert_eq!(u64_to_string(1000000), "1000000");
}

#[test]
fn formats_millis_as_seconds() {
    assert_eq!(millis_to_seconds_string(1500), "1.500");
    assert_eq!(millis_to_seconds_string(0), "0.000");
    assert_eq!(millis_to_seconds_string(999), "0.999");
    assert_eq!(millis_to_seconds_string(12345), "12.345");
}

#[test]
fn parses_unsigned_decimal() {
    assert_eq!(parse_u64("0"), Some(0));
    assert_eq!(parse_u64("512000"), Some(512000));
    assert_eq!(parse_u64(""), None);
    assert_eq!(parse_u64("12a"), None);
    assert_eq!(parse_u64("18446744073709551615"), Some(u64::MAX));
    assert_eq!(parse_u64("18446744073709551616"), None);
}

#[test]
fn parses_decimal_seconds_to_millis() {
    assert_eq!(parse_seconds_to_millis("1.5"), Some(1500));
    assert_eq!(parse_seconds_to_millis("2"), Some(2000));
    assert_eq!(parse_seconds_to_millis("0.05"), Some(50));
    assert_eq!(parse_seconds_to_millis("0.125"), Some(125));
    assert_eq!(parse_seconds_to_millis("1.2345"), None);
    assert_eq!(parse_seconds_to_millis("abc"), None);
    assert_eq!(parse_seconds_to_millis(".5"), None);
    assert_eq!(parse_seconds_to_millis("1."), None);
}

#[test]
fn splits_text_into_lines() {
    let lines = split_lines("a\nbb\n");
    assert_eq!(lines, vec![String::from("a"), String::from("bb"), String::from("")]);
    assert_eq!(split_lines("one"), vec![String::from("one")]);
}

#[test]
fn field_lookup_reads_first_match() {
    let log = "time:0.123\ntime-wall:0.456\ncg-mem:2048\nstatus:TO\n";
    assert_eq!(get_field(log, "time"), Some(String::from("0.123")));
    assert_eq!(get_field(log, "time-wall"), Some(String::from("0.456")));
    assert_eq!(get_field(log, "cg-mem"), Some(String::from("2048")));
    assert_eq!(get_field(log, "status"), Some(String::from("TO")));
    assert_eq!(get_field(log, "exitcode"), None);
}
