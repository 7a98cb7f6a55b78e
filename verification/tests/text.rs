use verticareader::column_type::{
    binary_string, boolean_string, character_string, clock_string_after, date_string,
    integer_string, interval_string, nonzero_bytes, numeric_string, push_civil_date, push_clock,
    push_datetime, time_string, timestamp_string, timestamptz_string, timetz_string, FormatError,
};
use verticareader::text::{
    chars_of, magnitude, parse_i64, push_chars, push_decimal, push_sign_padded_two,
    push_signed_decimal, push_signed_two_digits, push_two_digits, same_text, split_chars, text_of,
    trim, trimmed_chars,
};

fn chars(text: &str) -> Vec<char> {
    text.chars().collect()
}

#[test]
fn decimal_numerals() {
    for (n, expected) in [(0u64, "0"), (7, "7"), (10, "10"), (909, "909"), (u64::MAX, "18446744073709551615")] {
        let mut out = String::from(">");
        push_decimal(&mut out, n);
        assert_eq!(out, format!(">{}", expected));
    }
}

#[test]
fn signed_numerals() {
    for n in [i64::MIN, -10, -1, 0, 1, 10, i64::MAX] {
        let mut out = String::new();
        push_signed_decimal(&mut out, n);
        assert_eq!(out, n.to_string());
    }
    assert_eq!(magnitude(i64::MIN), 9223372036854775808);
    assert_eq!(magnitude(-5), 5);
    assert_eq!(magnitude(5), 5);
    assert_eq!(magnitude(0), 0);
}

#[test]
fn fields_two_characters_wide() {
    for (n, expected) in [(0u64, "00"), (5, "05"), (10, "10"), (99, "99"), (100, "100")] {
        let mut out = String::new();
        push_two_digits(&mut out, n);
        assert_eq!(out, expected);
    }
    for (n, expected) in [(0i64, "+00"), (5, "+05"), (-5, "-05"), (127, "+127"), (-128, "-128")] {
        let mut out = String::new();
        push_signed_two_digits(&mut out, n);
        assert_eq!(out, expected);
        assert_eq!(out, format!("{:+03}", n));
    }
    for (n, expected) in [(0i64, "00"), (5, "05"), (-5, "-5"), (12, "12"), (-12, "-12"), (123, "123")] {
        let mut out = String::new();
        push_sign_padded_two(&mut out, n);
        assert_eq!(out, expected);
        assert_eq!(out, format!("{:02}", n));
    }
}

#[test]
fn texts_and_their_characters() {
    assert_eq!(chars_of("a🚀ß"), vec!['a', '🚀', 'ß']);
    assert_eq!(chars_of(""), vec![]);
    assert_eq!(text_of(&chars("a🚀ß")), "a🚀ß");
    let mut out = String::from("x");
    push_chars(&mut out, &chars("yz"));
    assert_eq!(out, "xyz");
    assert!(same_text("abc", "abc"));
    assert!(same_text("", ""));
    assert!(!same_text("abc", "abd"));
    assert!(!same_text("abc", "ab"));
    assert!(!same_text("abc", "ABC"));
}

#[test]
fn white_space_is_trimmed_at_both_ends() {
    assert_eq!(trim("  a b \t"), "a b");
    assert_eq!(trim("a"), "a");
    assert_eq!(trim(""), "");
    assert_eq!(trim(" \r\n\u{2003}"), "");
    assert_eq!(trim("\u{feff}a"), "\u{feff}a");
    assert_eq!(trimmed_chars(&chars(" x ")), vec!['x']);
    for sample in ["", " ", "abc", " abc", "abc ", "\n a \u{a0} b \u{85}", "\u{1680}\u{200b}\u{2028}"] {
        assert_eq!(trim(sample), sample.trim());
    }
}

#[test]
fn fields_are_split_at_each_separator() {
    let split = |text: &str| -> Vec<String> {
        split_chars(&chars(text), '/').iter().map(|field| field.iter().collect()).collect()
    };
    assert_eq!(split(""), vec![""]);
    assert_eq!(split("a"), vec!["a"]);
    assert_eq!(split("a/b"), vec!["a", "b"]);
    assert_eq!(split("/"), vec!["", ""]);
    assert_eq!(split("a//b/"), vec!["a", "", "b", ""]);
    for sample in ["", "/", "//", "a/b/c", "/a", "a/", "no separator"] {
        let expected: Vec<String> = sample.split('/').map(|field| field.to_string()).collect();
        assert_eq!(split(sample), expected);
    }
}

#[test]
fn runs_of_digits_are_read_as_numbers() {
    assert_eq!(parse_i64(&chars("0")), Some(0));
    assert_eq!(parse_i64(&chars("007")), Some(7));
    assert_eq!(parse_i64(&chars("9223372036854775807")), Some(i64::MAX));
    assert_eq!(parse_i64(&chars("9223372036854775808")), None);
    assert_eq!(parse_i64(&chars("00000000000000000000000000012")), Some(12));
    assert_eq!(parse_i64(&chars("99999999999999999999")), None);
    assert_eq!(parse_i64(&chars("")), None);
    assert_eq!(parse_i64(&chars("-1")), None);
    assert_eq!(parse_i64(&chars("+1")), None);
    assert_eq!(parse_i64(&chars("12a")), None);
    assert_eq!(parse_i64(&chars("1 2")), None);
    assert_eq!(parse_i64(&chars("99999999999999999999x")), None);
    assert_eq!(parse_i64(&chars("٣")), None);
}

#[test]
fn dates_and_clock_times_are_written_in_fixed_fields() {
    let mut out = String::new();
    push_civil_date(&mut out, 2000, 1, 1);
    assert_eq!(out, "2000-01-01");
    let mut out = String::new();
    push_civil_date(&mut out, 33, 12, 31);
    assert_eq!(out, "0033-12-31");
    let mut out = String::new();
    push_civil_date(&mut out, -33, 2, 3);
    assert_eq!(out, "-0033-02-03");
    let mut out = String::new();
    push_civil_date(&mut out, 123456, 2, 3);
    assert_eq!(out, "+123456-02-03");
    let mut out = String::new();
    push_civil_date(&mut out, i32::MIN, 1, 1);
    assert_eq!(out, "-2147483648-01-01");
    let mut out = String::new();
    push_clock(&mut out, 1, 2, 3);
    assert_eq!(out, "01:02:03");
    let mut out = String::from("at ");
    push_datetime(&mut out, (1999, 1, 8, 23, 59, 59));
    assert_eq!(out, "at 1999-01-08 23:59:59");
}

#[test]
fn each_type_has_its_formatter() {
    assert_eq!(integer_string(&vec![0xFE, 0xFF]), Ok("-2".to_string()));
    assert_eq!(integer_string(&vec![]), Err(FormatError::UnsupportedIntegerWidth));
    assert_eq!(character_string(&b" x ".to_vec()), "x");
    assert_eq!(character_string(&vec![0x80]), "INVALID");
    assert_eq!(boolean_string(&vec![1]), Ok("1".to_string()));
    assert_eq!(boolean_string(&vec![]), Err(FormatError::WidthMismatch));
    assert_eq!(date_string(&1i64.to_le_bytes().to_vec()), Ok("2000-01-02".to_string()));
    assert_eq!(date_string(&vec![1]), Err(FormatError::WidthMismatch));
    assert_eq!(date_string(&i64::MAX.to_le_bytes().to_vec()), Err(FormatError::OutOfRange));
    assert_eq!(
        timestamp_string(&1_000_000i64.to_le_bytes().to_vec()),
        Ok("2000-01-01 00:00:01".to_string())
    );
    assert_eq!(timestamp_string(&vec![]), Err(FormatError::WidthMismatch));
    assert_eq!(
        timestamptz_string(&1_000_000i64.to_le_bytes().to_vec(), -1),
        Ok("1999-12-31 23:00:01-01".to_string())
    );
    assert_eq!(timestamptz_string(&vec![0; 9], 0), Err(FormatError::WidthMismatch));
    assert_eq!(time_string(&3_600_000_000i64.to_le_bytes().to_vec()), Ok("01:00:00".to_string()));
    assert_eq!(time_string(&vec![0; 7]), Err(FormatError::WidthMismatch));
    assert_eq!(clock_string_after(-3_600_000_000), "23:00:00");
    assert_eq!(
        timetz_string(&((3_600_000_000u64 << 24) | 86_400).to_le_bytes().to_vec()),
        Ok("01:00:00+00".to_string())
    );
    assert_eq!(timetz_string(&vec![0; 4]), Err(FormatError::WidthMismatch));
    assert_eq!(nonzero_bytes(&vec![0, 1, 0, 2, 0]), vec![1, 2]);
    assert_eq!(binary_string(&vec![0, 1, 0, 0x2F, 0], &None), "0x12F");
    assert_eq!(numeric_string(&12u64.to_le_bytes().to_vec()), "12");
    assert_eq!(interval_string(&60_000_000i64.to_le_bytes().to_vec()), Ok("00:01:00".to_string()));
    assert_eq!(interval_string(&vec![0; 2]), Err(FormatError::WidthMismatch));
}
