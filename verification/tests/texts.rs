use weight_tracker::error::JournalError;
use weight_tracker::date::Date;
use weight_tracker::persist::{is_header, parse_row, read_records, same_chars, write_records};
use weight_tracker::store::Record;
use weight_tracker::text::{
    blank, chars_of, copy_range, find_first, split_fields, split_lines, string_of, trim,
};
use weight_tracker::validate::{validate_date, validate_weight};
use weight_tracker::weight::{char_of_digit, digit_of, format_tenths, parse_tenths, read_digits};

fn cs(text: &str) -> Vec<char> {
    text.chars().collect()
}

#[test]
fn chars_of_and_string_of_are_inverse() {
    assert_eq!(chars_of("a, b\n"), vec!['a', ',', ' ', 'b', '\n']);
    assert_eq!(chars_of(""), Vec::<char>::new());
    assert_eq!(chars_of("é→x"), vec!['é', '→', 'x']);
    assert_eq!(string_of(&vec!['9', '0', '.', '1']), "90.1");
    assert_eq!(string_of(&chars_of("Date, Weight")), "Date, Weight");
}

#[test]
fn trim_drops_blanks_at_both_ends() {
    assert_eq!(trim(&cs("  90.1 \t")), cs("90.1"));
    assert_eq!(trim(&cs("90.1")), cs("90.1"));
    assert_eq!(trim(&cs("a b")), cs("a b"));
    assert_eq!(trim(&cs("   ")), cs(""));
    assert_eq!(trim(&cs("")), cs(""));
    assert!(blank(' ') && blank('\t') && blank('\n') && blank('\r'));
    assert!(!blank('a') && !blank(',') && !blank('0'));
}

#[test]
fn find_first_and_copy_range() {
    assert_eq!(find_first(&cs("ab,cd,e"), ','), 2);
    assert_eq!(find_first(&cs("abc"), ','), 3);
    assert_eq!(find_first(&cs(""), ','), 0);
    assert_eq!(copy_range(&cs("abcdef"), 2, 4), cs("cd"));
    assert_eq!(copy_range(&cs("abcdef"), 3, 3), cs(""));
}

#[test]
fn split_fields_cuts_at_the_first_comma() {
    assert_eq!(split_fields(&cs("23-04-2025, 90.1")), Some((cs("23-04-2025"), cs("90.1"))));
    assert_eq!(split_fields(&cs(" a , b , c ")), Some((cs("a"), cs("b , c"))));
    assert_eq!(split_fields(&cs(",")), Some((cs(""), cs(""))));
    assert_eq!(split_fields(&cs("no comma")), None);
}

#[test]
fn split_lines_drops_empty_lines() {
    assert_eq!(split_lines(&cs("a\nb\r\n\nc")), vec![cs("a"), cs("b"), cs("c")]);
    assert_eq!(split_lines(&cs("a\n")), vec![cs("a")]);
    assert_eq!(split_lines(&cs("\n\n")), Vec::<Vec<char>>::new());
    assert_eq!(split_lines(&cs("")), Vec::<Vec<char>>::new());
    assert_eq!(split_lines(&cs(" \nx")), vec![cs(" "), cs("x")]);
}

#[test]
fn digits_convert_both_ways() {
    for d in 0u8..10 {
        assert_eq!(digit_of(char_of_digit(d)), Some(d));
    }
    assert_eq!(char_of_digit(7), '7');
    assert_eq!(digit_of('x'), None);
    assert_eq!(digit_of('.'), None);
    assert_eq!(read_digits(&cs("a123b"), 1, 4), Some(123));
    assert_eq!(read_digits(&cs("a123b"), 1, 5), None);
    assert_eq!(read_digits(&cs("123"), 1, 1), Some(0));
    assert_eq!(read_digits(&cs("99999999999999999999"), 0, 20), Some(0x1_0000_0000));
}

#[test]
fn parse_tenths_reads_decimal_numbers() {
    assert_eq!(parse_tenths(&cs("90.1")), Some(901));
    assert_eq!(parse_tenths(&cs("90")), Some(900));
    assert_eq!(parse_tenths(&cs("90.")), Some(900));
    assert_eq!(parse_tenths(&cs(".5")), Some(5));
    assert_eq!(parse_tenths(&cs("0")), Some(0));
    assert_eq!(parse_tenths(&cs("0.0")), Some(0));
    assert_eq!(parse_tenths(&cs("007.25")), Some(73));
    assert_eq!(parse_tenths(&cs("87.24999")), Some(872));
    assert_eq!(parse_tenths(&cs("87.25")), Some(873));
    assert_eq!(parse_tenths(&cs("0.04")), Some(0));
    assert_eq!(parse_tenths(&cs("0.05")), Some(1));
    assert_eq!(parse_tenths(&cs("9.95")), Some(100));
    assert_eq!(parse_tenths(&cs("429496729.5")), Some(4294967295));
}

#[test]
fn parse_tenths_refuses_what_is_no_number() {
    for text in [
        "", ".", "abc", "9o.1", "90.1.2", "-90.1", "+90.1", " 90.1", "90.1 ", "90,1", "1e3",
        "429496729.6", "429496729.55", "4294967296", "99999999999999999999999999",
    ] {
        assert_eq!(parse_tenths(&cs(text)), None, "{}", text);
    }
}

#[test]
fn format_tenths_writes_one_decimal_place() {
    assert_eq!(format_tenths(901), cs("90.1"));
    assert_eq!(format_tenths(900), cs("90.0"));
    assert_eq!(format_tenths(5), cs("0.5"));
    assert_eq!(format_tenths(0), cs("0.0"));
    assert_eq!(format_tenths(10), cs("1.0"));
    assert_eq!(format_tenths(4294967295), cs("429496729.5"));
}

#[test]
fn formatted_weights_read_back() {
    for tenths in [0u32, 1, 9, 10, 99, 100, 901, 12345, u32::MAX] {
        assert_eq!(parse_tenths(&format_tenths(tenths)), Some(tenths));
    }
}

#[test]
fn validate_date_accepts_real_dates_only() {
    assert_eq!(validate_date("23-04-2025"), Ok(Date::new(2025, 4, 23).unwrap()));
    assert_eq!(validate_date("29-02-2024"), Ok(Date::new(2024, 2, 29).unwrap()));
    assert_eq!(validate_date("29-02-2025"), Err(JournalError::InvalidDate));
    assert_eq!(validate_date("32-01-2025"), Err(JournalError::InvalidDate));
    assert_eq!(validate_date("01-13-2025"), Err(JournalError::InvalidDate));
    assert_eq!(validate_date("2025-04-23"), Err(JournalError::InvalidDate));
    assert_eq!(validate_date(""), Err(JournalError::InvalidDate));
    assert_eq!(validate_date("23-04-"), Err(JournalError::InvalidDate));
}

#[test]
fn validate_weight_accepts_numbers_above_zero_only() {
    assert_eq!(validate_weight("90.1"), Ok(901));
    assert_eq!(validate_weight("0.1"), Ok(1));
    assert_eq!(validate_weight("75"), Ok(750));
    assert_eq!(validate_weight("0"), Err(JournalError::InvalidWeight));
    assert_eq!(validate_weight("0.0"), Err(JournalError::InvalidWeight));
    assert_eq!(validate_weight("-5"), Err(JournalError::InvalidWeight));
    assert_eq!(validate_weight(""), Err(JournalError::InvalidWeight));
    assert_eq!(validate_weight("heavy"), Err(JournalError::InvalidWeight));
    assert_eq!(validate_weight("inf"), Err(JournalError::InvalidWeight));
    assert_eq!(validate_weight("NaN"), Err(JournalError::InvalidWeight));
}

#[test]
fn header_and_rows() {
    assert!(is_header(&cs("Date, Weight")));
    assert!(is_header(&cs("  Date ,Weight  ")));
    assert!(!is_header(&cs("Date; Weight")));
    assert!(!is_header(&cs("Date, Weights")));
    assert!(same_chars(&cs("abc"), &cs("abc")));
    assert!(!same_chars(&cs("abc"), &cs("abd")));
    assert!(!same_chars(&cs("abc"), &cs("ab")));
    assert_eq!(
        parse_row(&cs("23-04-2025, 90.1")),
        Some(Record { date: Date::new(2025, 4, 23).unwrap(), tenths: 901 })
    );
    assert_eq!(parse_row(&cs("23-04-2025 90.1")), None);
    assert_eq!(parse_row(&cs("23-04-2025, ")), None);
    assert_eq!(parse_row(&cs(", 90.1")), None);
}

#[test]
fn read_and_write_records() {
    assert_eq!(read_records(""), None);
    assert_eq!(read_records("nothing"), Some(Err(JournalError::InvalidHeader)));
    let records = vec![
        Record { date: Date::new(2025, 4, 23).unwrap(), tenths: 901 },
        Record { date: Date::new(2025, 4, 24).unwrap(), tenths: 899 },
    ];
    let text = write_records(&records);
    assert_eq!(text, "Date, Weight\n23-04-2025, 90.1\n24-04-2025, 89.9\n");
    assert_eq!(read_records(&text), Some(Ok(records)));
}
