use calamine::{Data, Range};
use embedded_trials::plugin::{
    count_reply, get_table, greet, parse_num, parse_usize_bytes, render_table, IntErrorKind,
};

#[test]
fn greet_wraps_name() {
    assert_eq!(greet(b"Typst"), b"Hello, Typst!".to_vec());
    assert_eq!(greet(b""), b"Hello, !".to_vec());
}

#[test]
fn count_reply_is_decimal() {
    assert_eq!(count_reply(0), b"0".to_vec());
    assert_eq!(count_reply(7), b"7".to_vec());
    assert_eq!(count_reply(1234567), b"1234567".to_vec());
    assert_eq!(count_reply(usize::MAX), usize::MAX.to_string().into_bytes());
}

fn std_parse_num(num: &[u8]) -> Result<usize, String> {
    std::str::from_utf8(num)
        .map_err(|e| format!("Invalid number: {e}"))?
        .parse()
        .map_err(|e| format!("Invalid number: {e}"))
}

#[test]
fn parse_num_reads_numbers() {
    assert_eq!(parse_num(b"0"), Ok(0));
    assert_eq!(parse_num(b"42"), Ok(42));
    assert_eq!(parse_num(b"+42"), Ok(42));
    assert_eq!(parse_num(b"007"), Ok(7));
    assert_eq!(parse_num(b"18446744073709551615"), Ok(usize::MAX));
}

#[test]
fn parse_num_errors() {
    assert_eq!(parse_num(b""), Err("Invalid number: cannot parse integer from empty string".to_string()));
    assert_eq!(parse_num(b"4x"), Err("Invalid number: invalid digit found in string".to_string()));
    assert_eq!(parse_num(b"-1"), Err("Invalid number: invalid digit found in string".to_string()));
    assert_eq!(parse_num(b"+"), Err("Invalid number: invalid digit found in string".to_string()));
    assert_eq!(
        parse_num(b"18446744073709551616"),
        Err("Invalid number: number too large to fit in target type".to_string())
    );
    assert_eq!(
        parse_num(b"1\xff"),
        Err("Invalid number: invalid utf-8 sequence of 1 bytes from index 1".to_string())
    );
    assert_eq!(
        parse_num(b"12\xe2\x82"),
        Err("Invalid number: incomplete utf-8 byte sequence from index 2".to_string())
    );
}

#[test]
fn parse_num_agrees_with_std() {
    let inputs: [&[u8]; 16] = [
        b"", b"+", b"-", b"0", b"+0", b"-0", b"12a", b"a12", b" 1", b"99999999999999999999",
        b"99999999999999999999x", b"1844674407370955161x", b"+-1", b"\xc3\xa9", b"\xf0\x9f", b"123456",
    ];
    for input in inputs {
        assert_eq!(parse_num(input), std_parse_num(input), "input {:?}", input);
    }
}

#[test]
fn parse_usize_bytes_kinds() {
    assert_eq!(parse_usize_bytes(b""), Err(IntErrorKind::Empty));
    assert_eq!(parse_usize_bytes(b"1.5"), Err(IntErrorKind::InvalidDigit));
    assert_eq!(parse_usize_bytes(b"99999999999999999999"), Err(IntErrorKind::PosOverflow));
    assert_eq!(parse_usize_bytes(b"+5"), Ok(5));
}

fn sample_range() -> Range<Data> {
    let mut range = Range::new((1, 1), (2, 3));
    range.set_value((1, 1), Data::String("a".to_string()));
    range.set_value((1, 2), Data::Int(2));
    range.set_value((2, 1), Data::Bool(true));
    range.set_value((2, 3), Data::String("z".to_string()));
    range
}

#[test]
fn render_table_joins_cells() {
    let range = sample_range();
    assert_eq!(render_table(&range, 1, 1, 3, 2), b"a\t2\t\ntrue\t\tz".to_vec());
}

#[test]
fn render_table_marks_positions_outside_the_range() {
    let range = sample_range();
    assert_eq!(render_table(&range, 0, 0, 2, 2), b"null\tnull\nnull\ta".to_vec());
    assert_eq!(render_table(&range, 3, 2, 2, 1), b"z\tnull".to_vec());
}

#[test]
fn render_table_of_empty_window() {
    let range = sample_range();
    assert_eq!(render_table(&range, 1, 1, 0, 3), b"\n\n".to_vec());
    assert_eq!(render_table(&range, 1, 1, 3, 0), b"".to_vec());
}

#[test]
fn get_table_rejects_bad_arguments() {
    let err = |r: Result<Vec<u8>, String>| r.unwrap_err();
    assert_eq!(
        err(get_table(b"", b"\xff", b"0", b"0", b"1", b"1")),
        "Invalid sheet name: invalid utf-8 sequence of 1 bytes from index 0"
    );
    assert_eq!(
        err(get_table(b"", b"Sheet1", b"x", b"0", b"1", b"1")),
        "Invalid number: invalid digit found in string"
    );
    assert_eq!(
        err(get_table(b"", b"Sheet1", b"0", b"", b"1", b"1")),
        "Invalid number: cannot parse integer from empty string"
    );
    assert_eq!(
        err(get_table(b"", b"Sheet1", b"0", b"0", b"-1", b"1")),
        "Invalid number: invalid digit found in string"
    );
    assert_eq!(
        err(get_table(b"", b"Sheet1", b"0", b"0", b"1", b"99999999999999999999")),
        "Invalid number: number too large to fit in target type"
    );
}

#[test]
fn get_table_reports_a_file_that_is_not_a_workbook() {
    let e = get_table(b"not a zip file", b"Sheet1", b"0", b"0", b"1", b"1").unwrap_err();
    assert!(e.starts_with("Failed to open workbook: "), "{e}");
}

#[test]
fn utf8_messages_agree_with_std() {
    let inputs: [&[u8]; 8] = [
        b"\xe0\x80", b"\xed\xa0\x80", b"\xf4\x90\x80\x80", b"ab\xf0\x9f\x98", b"\xc3", b"\x80",
        b"1\xf0\x28\x8c\x28", b"\xfe",
    ];
    for input in inputs {
        assert_eq!(parse_num(input), std_parse_num(input), "input {:?}", input);
    }
}

#[test]
fn count_replies_read_back_as_numbers() {
    for n in [0usize, 9, 10, 12345, usize::MAX] {
        assert_eq!(parse_num(&count_reply(n)), Ok(n));
    }
}
