use elfcode::text::{ascii_string, parse_i64, parse_u64, split_fields, split_lines};

#[test]
fn decimal_parsing_is_exact() {
    assert_eq!(parse_u64(b"0"), Some(0));
    assert_eq!(parse_u64(b"90269"), Some(90269));
    assert_eq!(parse_u64(b"18446744073709551615"), Some(u64::MAX));
    assert_eq!(parse_u64(b"18446744073709551616"), None);
    assert_eq!(parse_u64(b""), None);
    assert_eq!(parse_u64(b"12a"), None);

    assert_eq!(parse_i64(b"-42"), Some(-42));
    assert_eq!(parse_i64(b"+42"), Some(42));
    assert_eq!(parse_i64(b"42"), Some(42));
    assert_eq!(parse_i64(b"-9223372036854775808"), Some(i64::MIN));
    assert_eq!(parse_i64(b"9223372036854775808"), None);
    assert_eq!(parse_i64(b"-"), None);
    assert_eq!(parse_i64(b" 7"), None);
}

#[test]
fn line_and_field_splitting_follow_the_usual_rules() {
    let lines = split_lines(b"a\n\nbc\n");
    assert_eq!(lines.len(), 3);
    assert_eq!(lines[0], b"a".to_vec());
    assert_eq!(lines[1], Vec::<u8>::new());
    assert_eq!(lines[2], b"bc".to_vec());

    let fields = split_fields(b"  one  two\tthree ");
    assert_eq!(fields.len(), 3);
    assert_eq!(fields[0], b"one".to_vec());
    assert_eq!(fields[1], b"two".to_vec());
    assert_eq!(fields[2], b"three".to_vec());
}

#[test]
fn building_text_appends_every_character() {
    // This fails if appending a character ever left the text unchanged.
    let s = ascii_string(b"fgij");
    assert_eq!(s, "fgij");
    assert_eq!(ascii_string(b""), "");
}
