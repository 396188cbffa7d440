use reutils::utils::cal::{
    days_in_month, decimal_string, get_first_day_of_week, is_leap_year,
    vec_month_calendar, Date,
};
use reutils::utils::strings::{min_len_from, offset_type_from, printable, Flags, FlagsOffsetType};

#[test]
fn strings_defaults() {
    let f = Flags::new();
    assert_eq!(f.offset_type, FlagsOffsetType::NoneType);
    assert_eq!(f.min_len, 4);
}

#[test]
fn strings_offset_types() {
    assert_eq!(offset_type_from("d").ok(), Some(FlagsOffsetType::Dec));
    assert_eq!(offset_type_from("o").ok(), Some(FlagsOffsetType::Octal));
    assert_eq!(offset_type_from("x").ok(), Some(FlagsOffsetType::Hex));
    let e = offset_type_from("q").err().unwrap();
    assert_eq!(e.code, 1);
    assert_eq!(e.message.as_deref(), Some("-t: invalid format specifier q"));
    assert!(offset_type_from("dd").is_err());
}

#[test]
fn strings_min_len() {
    assert_eq!(min_len_from(6).ok(), Some(6));
    let e = min_len_from(0).err().unwrap();
    assert_eq!(e.message.as_deref(), Some("-n: Total cannot be zero"));
}

#[test]
fn strings_printable_filter() {
    assert_eq!(printable("ab\tc d\u{0}e\n"), "abc de");
    assert_eq!(printable("\u{85}x\u{3000}y\u{7f}"), "xy");
    assert_eq!(printable(""), "");
}

#[test]
fn leap_years() {
    assert!(is_leap_year(2024));
    assert!(!is_leap_year(2023));
    assert!(is_leap_year(2000));
    assert!(!is_leap_year(1900));
    assert!(is_leap_year(1700));
    assert!(!is_leap_year(1701));
}

#[test]
fn month_lengths() {
    assert_eq!(days_in_month(2, 2024), 29);
    assert_eq!(days_in_month(2, 2023), 28);
    assert_eq!(days_in_month(4, 2023), 30);
    assert_eq!(days_in_month(12, 2023), 31);
    assert_eq!(days_in_month(2, 1900), 28);
}

#[test]
fn first_weekdays() {
    // 1 January 2024 was a Monday, 1 September 2023 a Friday.
    assert_eq!(get_first_day_of_week(1, 2024), 1);
    assert_eq!(get_first_day_of_week(9, 2023), 5);
    assert_eq!(get_first_day_of_week(3, 2000), 3);
    // 1 September 1752 (Julian) was a Tuesday.
    assert_eq!(get_first_day_of_week(9, 1752), 2);
    assert!(get_first_day_of_week(1, u64::MAX) < 7);
}

#[test]
fn month_layout_with_today_highlighted() {
    let today = Date { year: 2023, month: 9, day: 5 };
    let lines = vec_month_calendar(9, 2023, true, &today);
    let expect = vec![
        "   September 2023   ".to_string(),
        "Su Mo Tu We Th Fr Sa".to_string(),
        format!("{} 1  2 ", " ".repeat(15)),
        " 3  4 \u{1b}[7m 5\u{1b}[m  6  7  8  9 ".to_string(),
        "10 11 12 13 14 15 16 ".to_string(),
        "17 18 19 20 21 22 23 ".to_string(),
        "24 25 26 27 28 29 30 ".to_string(),
        " ".repeat(20),
    ];
    assert_eq!(lines, expect);
}

#[test]
fn month_layout_without_year_and_1752_gap() {
    let elsewhere = Date { year: 2000, month: 1, day: 1 };
    let lines = vec_month_calendar(9, 1752, false, &elsewhere);
    assert_eq!(lines[0], "     September      ");
    assert_eq!(lines[2], format!("{} 1  2 14 15 16 ", " ".repeat(6)));
    assert_eq!(lines[3], "17 18 19 20 21 22 23 ");
    assert_eq!(lines[4], "24 25 26 27 28 29 30 ");
    assert_eq!(lines.len(), 8);
    assert_eq!(lines[7], " ".repeat(20));
}

#[test]
fn year_in_decimal() {
    assert_eq!(decimal_string(0), "0");
    assert_eq!(decimal_string(1752), "1752");
    assert_eq!(decimal_string(u64::MAX), u64::MAX.to_string());
    let day = Date { year: 2024, month: 2, day: 1 };
    assert_eq!(vec_month_calendar(2, 2024, true, &day)[0], "   February 2024    ");
}

#[test]
fn trailing_whitespace_trimmed() {
    assert_eq!(reutils::text::trim_end("a b \t\n"), "a b");
    assert_eq!(reutils::text::trim_end("x\u{3000}\u{85}"), "x");
    assert_eq!(reutils::text::trim_end("   "), "");
    assert_eq!(reutils::text::trim_end(""), "");
    assert_eq!(reutils::text::trim_end("é "), "é");
}
