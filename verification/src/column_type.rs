//! The fourteen logical column types, their names, and the text that the raw
//! bytes of a column stand for under each of them.
use vstd::prelude::*;
use vstd::utf8::{decode_utf8, valid_utf8};
use crate::calendar::{
    add_days, add_micros_and_hours, clock_after, clock_after_midnight, date_after_days,
    datetime_after,
};
use crate::column_conversion::{converted_text, ColumnConversion};
use crate::endian::{
    le_bytes_signed, le_i64, le_signed, le_u64, le_value, lemma_le_bytes_len,
    lemma_le_signed_of_bytes, radix,
};
use crate::text::{
    chars_of, decimal, lemma_signed_decimal_reads_back, lowercased, numeral, numeral_chars,
    padded_numeral, parse_i64, parsed_i64, push_char, push_chars, push_decimal, push_padded_numeral,
    push_sign_padded_two, push_signed_decimal, push_signed_two_digits, push_two_digits, same_text,
    sign_padded_two, signed_decimal, signed_decimal_value, signed_two_digits, text_of, text_view,
    to_lowercase, trimmed, trimmed_chars, two_digits, utf8_text,
};

verus! {

/// The logical type of a column.
#[derive(Debug, Clone, Copy, PartialEq, Eq, Structural)]
pub enum ColumnType {
    Integer,
    Float,
    Char,
    Varchar,
    Boolean,
    Date,
    Timestamp,
    TimestampTz,
    Time,
    TimeTz,
    Varbinary,
    Binary,
    Numeric,
    Interval,
}

/// Why the bytes of a column cannot be shown under its type.
#[derive(Debug, Clone, Copy, PartialEq, Eq, Structural)]
pub enum FormatError {
    /// An integer column holds a number of bytes other than 1, 2, 4 or 8.
    UnsupportedIntegerWidth,
    /// A column of a fixed-width type holds too few or too many bytes.
    WidthMismatch,
    /// A date or a point in time lies outside the calendar's range.
    OutOfRange,
    /// A number does not fit in 64 bits with a sign.
    NumberTooLarge,
    /// The row has more columns than the schema has types.
    MissingType,
}

impl FormatError {
    /// What the error says.
    pub open spec fn message(self) -> Seq<char> {
        match self {
            FormatError::UnsupportedIntegerWidth => "incorrect integer byte count"@,
            FormatError::WidthMismatch => "incorrect byte count for the column's type"@,
            FormatError::OutOfRange => "date or time out of range"@,
            FormatError::NumberTooLarge => "number too large"@,
            FormatError::MissingType => "more columns than types"@,
        }
    }

    /// What the error says.
    pub fn to_string(&self) -> (text: String)
        ensures
            text@ == self.message(),
    {
        let mut text = String::new();
        match self {
            FormatError::UnsupportedIntegerWidth => text.append("incorrect integer byte count"),
            FormatError::WidthMismatch => text.append(
                "incorrect byte count for the column's type",
            ),
            FormatError::OutOfRange => text.append("date or time out of range"),
            FormatError::NumberTooLarge => text.append("number too large"),
            FormatError::MissingType => text.append("more columns than types"),
        }
        text
    }
}

/// What a column shows: a text, or, for a floating-point column, the 64 bits
/// of the IEEE-754 double, which the caller prints.
#[derive(Debug, Clone, PartialEq, Eq)]
pub enum Formatted {
    Text(String),
    Double(u64),
}

/// The mathematical value of a `Formatted`.
pub enum FormattedView {
    Text(Seq<char>),
    Double(u64),
}

impl View for Formatted {
    type V = FormattedView;

    open spec fn view(&self) -> FormattedView {
        match self {
            Formatted::Text(s) => FormattedView::Text(s@),
            Formatted::Double(bits) => FormattedView::Double(*bits),
        }
    }
}

/// The view of what a formatter returns.
pub open spec fn shown(r: Result<Formatted, FormatError>) -> Result<FormattedView, FormatError> {
    match r {
        Ok(f) => Ok(f@),
        Err(e) => Err(e),
    }
}

/// The view of the raw bytes of a column, `None` for a null.
pub open spec fn raw(value: Option<Vec<u8>>) -> Option<Seq<u8>> {
    match value {
        Some(bytes) => Some(bytes@),
        None => None,
    }
}

/// The type that a lower-case name stands for.
pub open spec fn type_named(name: Seq<char>) -> Option<ColumnType> {
    if name == "integer"@ || name == "int"@ {
        Some(ColumnType::Integer)
    } else if name == "float"@ {
        Some(ColumnType::Float)
    } else if name == "char"@ {
        Some(ColumnType::Char)
    } else if name == "varchar"@ {
        Some(ColumnType::Varchar)
    } else if name == "boolean"@ {
        Some(ColumnType::Boolean)
    } else if name == "date"@ {
        Some(ColumnType::Date)
    } else if name == "timestamp"@ {
        Some(ColumnType::Timestamp)
    } else if name == "timestamptz"@ {
        Some(ColumnType::TimestampTz)
    } else if name == "time"@ {
        Some(ColumnType::Time)
    } else if name == "timetz"@ {
        Some(ColumnType::TimeTz)
    } else if name == "varbinary"@ {
        Some(ColumnType::Varbinary)
    } else if name == "binary"@ {
        Some(ColumnType::Binary)
    } else if name == "numeric"@ {
        Some(ColumnType::Numeric)
    } else if name == "interval"@ {
        Some(ColumnType::Interval)
    } else {
        None
    }
}

/// The message that rejects a type name.
pub open spec fn invalid_type(name: Seq<char>) -> Seq<char> {
    "invalid type: "@ + name
}

/// The regular expression for a size in round brackets, as in `varchar(32)`.
pub open spec fn size_pattern() -> Seq<char> {
    "\\(.+\\)"@
}

/// `text` with the leftmost match of the regular expression `pattern`
/// replaced by `replacement`, as `regex` does it; `None` where `regex` does
/// not accept the pattern.
pub uninterp spec fn first_match_replaced(
    pattern: Seq<char>,
    text: Seq<char>,
    replacement: Seq<char>,
) -> Option<Seq<char>>;

/// Replaces the leftmost match of a regular expression. Wraps `Regex::new`
/// and `Regex::replace` of `regex`; the contract only names the result, and
/// `None` stands for a pattern that `Regex::new` refuses.
#[verifier::external_body]
pub(crate) fn replace_first(pattern: &str, text: &str, replacement: &str) -> (r: Option<String>)
    ensures
        text_view(r) == first_match_replaced(pattern@, text@, replacement@),
{
    match regex::Regex::new(pattern) {
        Ok(re) => Some(re.replace(text, replacement).into_owned()),
        Err(_) => None,
    }
}

/// What `ColumnType::from_string` makes of a name once the size in brackets
/// is gone: the type, or the message that rejects the name as it was given.
pub open spec fn type_of_stripped(stripped: Option<Seq<char>>, given: Seq<char>) -> Result<
    ColumnType,
    Seq<char>,
> {
    match stripped {
        Some(name) => match type_named(lowercased(name)) {
            Some(t) => Ok(t),
            None => Err(invalid_type(given)),
        },
        None => Err(invalid_type(given)),
    }
}

/// What `ColumnType::from_string` makes of a text: the size in brackets is
/// dropped by the regular expression for it, and the rest names the type.
pub open spec fn type_of_text(text: Seq<char>) -> Result<ColumnType, Seq<char>> {
    type_of_stripped(first_match_replaced(size_pattern(), text, ""@), text)
}

/// The view of a type or the message that rejects its name.
pub open spec fn named_view(r: Result<ColumnType, String>) -> Result<ColumnType, Seq<char>> {
    match r {
        Ok(t) => Ok(t),
        Err(message) => Err(message@),
    }
}

impl ColumnType {
    /// The type that `string` names: a name of any case, with or without a
    /// size in round brackets, which is dropped. Any other text is rejected
    /// with the message `invalid type: ` and the text.
    pub fn from_string(string: &str) -> (r: Result<ColumnType, String>)
        ensures
            named_view(r) == type_of_text(string@),
    {
        let stripped = replace_first("\\(.+\\)", string, "");
        match stripped {
            Some(name) => Self::from_stripped(name.as_str(), string),
            None => Err(Self::rejected(string)),
        }
    }

    /// The type that `name` stands for, whatever its case; `given` is the
    /// text that the message quotes where `name` stands for none.
    pub fn from_stripped(name: &str, given: &str) -> (r: Result<ColumnType, String>)
        ensures
            named_view(r) == type_of_stripped(Some(name@), given@),
    {
        let lower = to_lowercase(name);
        match Self::from_lowercase(lower.as_str()) {
            Some(t) => Ok(t),
            None => Err(Self::rejected(given)),
        }
    }

    /// The message that rejects `given` as a type name.
    pub fn rejected(given: &str) -> (message: String)
        ensures
            message@ == invalid_type(given@),
    {
        let mut message = String::new();
        message.append("invalid type: ");
        message.append(given);
        message
    }

    /// The type that a lower-case name stands for.
    pub fn from_lowercase(name: &str) -> (r: Option<ColumnType>)
        ensures
            r == type_named(name@),
    {
        if same_text(name, "integer") || same_text(name, "int") {
            Some(ColumnType::Integer)
        } else if same_text(name, "float") {
            Some(ColumnType::Float)
        } else if same_text(name, "char") {
            Some(ColumnType::Char)
        } else if same_text(name, "varchar") {
            Some(ColumnType::Varchar)
        } else if same_text(name, "boolean") {
            Some(ColumnType::Boolean)
        } else if same_text(name, "date") {
            Some(ColumnType::Date)
        } else if same_text(name, "timestamp") {
            Some(ColumnType::Timestamp)
        } else if same_text(name, "timestamptz") {
            Some(ColumnType::TimestampTz)
        } else if same_text(name, "time") {
            Some(ColumnType::Time)
        } else if same_text(name, "timetz") {
            Some(ColumnType::TimeTz)
        } else if same_text(name, "varbinary") {
            Some(ColumnType::Varbinary)
        } else if same_text(name, "binary") {
            Some(ColumnType::Binary)
        } else if same_text(name, "numeric") {
            Some(ColumnType::Numeric)
        } else if same_text(name, "interval") {
            Some(ColumnType::Interval)
        } else {
            None
        }
    }
}

/// The year of the calendar's reference day, 2000-01-01.
pub const EPOCH_YEAR: i32 = 2000;

/// The month of the calendar's reference day.
pub const EPOCH_MONTH: u32 = 1;

/// The day of the month of the calendar's reference day.
pub const EPOCH_DAY: u32 = 1;

/// A year as the calendar writes it: four digits from 0 to 9999, else a sign
/// and at least four digits.
pub open spec fn year_text(year: int) -> Seq<char> {
    if 0 <= year <= 9999 {
        padded_numeral(year as nat, 10, false, 4)
    } else if year < 0 {
        seq!['-'] + padded_numeral((-year) as nat, 10, false, 4)
    } else {
        seq!['+'] + padded_numeral(year as nat, 10, false, 4)
    }
}

/// A civil date as `YYYY-MM-DD`.
pub open spec fn civil_date_text(year: int, month: int, day: int) -> Seq<char> {
    year_text(year) + seq!['-'] + two_digits(month as nat) + seq!['-'] + two_digits(day as nat)
}

/// A clock time as `HH:MM:SS`.
pub open spec fn clock_text(hour: int, minute: int, second: int) -> Seq<char> {
    two_digits(hour as nat) + seq![':'] + two_digits(minute as nat) + seq![':'] + two_digits(
        second as nat,
    )
}

/// A civil date and a clock time, a space between them.
pub open spec fn datetime_text(at: (i32, u32, u32, u32, u32, u32)) -> Seq<char> {
    civil_date_text(at.0 as int, at.1 as int, at.2 as int) + seq![' '] + clock_text(
        at.3 as int,
        at.4 as int,
        at.5 as int,
    )
}

/// An integer column: 1, 2, 4 or 8 little-endian bytes in two's complement,
/// shown in decimal.
pub open spec fn integer_text(bytes: Seq<u8>) -> Result<Seq<char>, FormatError> {
    if bytes.len() == 1 || bytes.len() == 2 || bytes.len() == 4 || bytes.len() == 8 {
        Ok(signed_decimal(le_signed(bytes)))
    } else {
        Err(FormatError::UnsupportedIntegerWidth)
    }
}

/// A character column: the text that the bytes encode in UTF-8, without the
/// white space at both ends; `INVALID` where they encode none.
pub open spec fn character_text(bytes: Seq<u8>) -> Seq<char> {
    if valid_utf8(bytes) {
        trimmed(decode_utf8(bytes))
    } else {
        "INVALID"@
    }
}

/// A boolean column: its first byte in decimal.
pub open spec fn boolean_text(bytes: Seq<u8>) -> Result<Seq<char>, FormatError> {
    if bytes.len() >= 1 {
        Ok(decimal(bytes[0] as nat))
    } else {
        Err(FormatError::WidthMismatch)
    }
}

/// A date column: eight bytes that count the days since the reference day.
pub open spec fn date_text(bytes: Seq<u8>) -> Result<Seq<char>, FormatError> {
    if bytes.len() != 8 {
        Err(FormatError::WidthMismatch)
    } else {
        match date_after_days(EPOCH_YEAR, EPOCH_MONTH, EPOCH_DAY, le_signed(bytes) as i64) {
            Some(date) => Ok(civil_date_text(date.0 as int, date.1 as int, date.2 as int)),
            None => Err(FormatError::OutOfRange),
        }
    }
}

/// A timestamp column: eight bytes that count the microseconds since the
/// start of the reference day, shown to the second.
pub open spec fn timestamp_text(bytes: Seq<u8>) -> Result<Seq<char>, FormatError> {
    if bytes.len() != 8 {
        Err(FormatError::WidthMismatch)
    } else {
        match datetime_after(EPOCH_YEAR, EPOCH_MONTH, EPOCH_DAY, le_signed(bytes) as i64, 0) {
            Some(at) => Ok(datetime_text(at)),
            None => Err(FormatError::OutOfRange),
        }
    }
}

/// A timestamp column with a zone: as a timestamp, moved by the caller's
/// offset in hours, which follows the text with its sign.
pub open spec fn timestamptz_text(bytes: Seq<u8>, tz_offset: i8) -> Result<
    Seq<char>,
    FormatError,
> {
    if bytes.len() != 8 {
        Err(FormatError::WidthMismatch)
    } else {
        match datetime_after(
            EPOCH_YEAR,
            EPOCH_MONTH,
            EPOCH_DAY,
            le_signed(bytes) as i64,
            tz_offset as i64,
        ) {
            Some(at) => Ok(datetime_text(at) + signed_two_digits(tz_offset as int)),
            None => Err(FormatError::OutOfRange),
        }
    }
}

/// The clock time `micros` microseconds after midnight as `HH:MM:SS`.
pub open spec fn clock_text_after(micros: int) -> Seq<char> {
    let at = clock_after_midnight(micros);
    clock_text(at.0, at.1, at.2)
}

/// A time column: eight bytes that count the microseconds since midnight.
pub open spec fn time_text(bytes: Seq<u8>) -> Result<Seq<char>, FormatError> {
    if bytes.len() != 8 {
        Err(FormatError::WidthMismatch)
    } else {
        Ok(clock_text_after(le_signed(bytes)))
    }
}

/// The microseconds since midnight in a time-with-zone word: its upper 40 bits.
pub open spec fn timetz_micros(word: nat) -> int {
    (word / 0x100_0000) as int
}

/// The zone's offset in hours that a time-with-zone word holds: its lower 24
/// bits count seconds, of which 24 hours' worth stand for no offset, and more
/// seconds for an offset further west.
pub open spec fn timetz_offset(word: nat) -> int {
    24 - ((word % 0x100_0000) / 3_600) as int
}

/// A time column with a zone: the clock time moved by the zone's offset in
/// hours, which follows the text with its sign.
pub open spec fn timetz_text(bytes: Seq<u8>) -> Result<Seq<char>, FormatError> {
    if bytes.len() != 8 {
        Err(FormatError::WidthMismatch)
    } else {
        let word = le_value(bytes);
        let offset = timetz_offset(word);
        Ok(
            clock_text_after(timetz_micros(word) + offset * 3_600_000_000) + signed_two_digits(
                offset,
            ),
        )
    }
}

/// The bytes of a binary column that are not zero, in their order.
pub open spec fn without_zeros(bytes: Seq<u8>) -> Seq<u8>
    decreases bytes.len(),
{
    if bytes.len() == 0 {
        Seq::empty()
    } else if bytes.last() == 0 {
        without_zeros(bytes.drop_last())
    } else {
        without_zeros(bytes.drop_last()).push(bytes.last())
    }
}

/// Each byte in upper-case hexadecimal without a leading zero, one after
/// another.
pub open spec fn hex_run(bytes: Seq<u8>) -> Seq<char>
    decreases bytes.len(),
{
    if bytes.len() == 0 {
        Seq::empty()
    } else {
        hex_run(bytes.drop_last()) + numeral(bytes.last() as nat, 16, true)
    }
}

/// A binary column: its non-zero bytes, as the conversion shows them, or in
/// hexadecimal after `0x` where there is no conversion.
pub open spec fn binary_text(bytes: Seq<u8>, conversion: Option<ColumnConversion>) -> Seq<char> {
    match conversion {
        Some(c) => converted_text(c, without_zeros(bytes)),
        None => seq!['0', 'x'] + hex_run(without_zeros(bytes)),
    }
}

/// The 64-bit words of a numeric column, in their order: each eight bytes,
/// little-endian. Bytes beyond the last whole word do not count.
pub open spec fn numeric_words(bytes: Seq<u8>) -> Seq<u64> {
    Seq::new(bytes.len() / 8, |i: int| le_value(bytes.subrange(8 * i, 8 * i + 8)) as u64)
}

/// The words from the first one on that is not zero.
pub open spec fn from_first_nonzero(words: Seq<u64>) -> Seq<u64>
    decreases words.len(),
{
    if words.len() > 0 && words[0] == 0 {
        from_first_nonzero(words.skip(1))
    } else {
        words
    }
}

/// The decimal numerals of the words, one after another.
pub open spec fn decimals(words: Seq<u64>) -> Seq<char>
    decreases words.len(),
{
    if words.len() == 0 {
        Seq::empty()
    } else {
        decimals(words.drop_last()) + decimal(words.last() as nat)
    }
}

/// A numeric column: the decimal numerals of its words, leading zero words
/// left out.
pub open spec fn numeric_text(bytes: Seq<u8>) -> Seq<char> {
    decimals(from_first_nonzero(numeric_words(bytes)))
}

/// Hours, minutes and seconds of a span of `micros` microseconds, each with
/// the sign of the span: the whole seconds, rounded towards zero, divided by
/// 3600 and by 60.
pub open spec fn interval_fields(micros: int) -> (int, int, int) {
    let seconds = if micros < 0 {
        (-micros) / 1_000_000
    } else {
        micros / 1_000_000
    };
    let hours = seconds / 3_600;
    let minutes = (seconds % 3_600) / 60;
    let rest = seconds % 60;
    if micros < 0 {
        (-hours, -minutes, -rest)
    } else {
        (hours, minutes, rest)
    }
}

/// An interval column: eight bytes that count microseconds, shown as hours,
/// minutes and seconds in fields two characters wide.
pub open spec fn interval_text(bytes: Seq<u8>) -> Result<Seq<char>, FormatError> {
    if bytes.len() != 8 {
        Err(FormatError::WidthMismatch)
    } else {
        let fields = interval_fields(le_signed(bytes));
        Ok(
            sign_padded_two(fields.0) + seq![':'] + sign_padded_two(fields.1) + seq![':']
                + sign_padded_two(fields.2),
        )
    }
}

/// A text, or the reason why there is none, as a `FormattedView`.
pub open spec fn as_text(r: Result<Seq<char>, FormatError>) -> Result<FormattedView, FormatError> {
    match r {
        Ok(text) => Ok(FormattedView::Text(text)),
        Err(e) => Err(e),
    }
}

/// What a column of type `ty` shows for its raw bytes: the empty text for a
/// null whatever the type, else what the type makes of the bytes.
pub open spec fn formatted(
    ty: ColumnType,
    value: Option<Seq<u8>>,
    tz_offset: i8,
    conversion: Option<ColumnConversion>,
) -> Result<FormattedView, FormatError> {
    match value {
        None => Ok(FormattedView::Text(Seq::empty())),
        Some(bytes) => match ty {
            ColumnType::Integer => as_text(integer_text(bytes)),
            ColumnType::Float => if bytes.len() == 8 {
                Ok(FormattedView::Double(le_value(bytes) as u64))
            } else {
                Err(FormatError::WidthMismatch)
            },
            ColumnType::Char | ColumnType::Varchar => Ok(
                FormattedView::Text(character_text(bytes)),
            ),
            ColumnType::Boolean => as_text(boolean_text(bytes)),
            ColumnType::Date => as_text(date_text(bytes)),
            ColumnType::Timestamp => as_text(timestamp_text(bytes)),
            ColumnType::TimestampTz => as_text(timestamptz_text(bytes, tz_offset)),
            ColumnType::Time => as_text(time_text(bytes)),
            ColumnType::TimeTz => as_text(timetz_text(bytes)),
            ColumnType::Varbinary | ColumnType::Binary => Ok(
                FormattedView::Text(binary_text(bytes, conversion)),
            ),
            ColumnType::Numeric => Ok(FormattedView::Text(numeric_text(bytes))),
            ColumnType::Interval => as_text(interval_text(bytes)),
        },
    }
}

/// The view of a text or the reason why there is none.
pub open spec fn text_result(r: Result<String, FormatError>) -> Result<Seq<char>, FormatError> {
    match r {
        Ok(text) => Ok(text@),
        Err(e) => Err(e),
    }
}

/// Appends a civil date as `YYYY-MM-DD`.
pub fn push_civil_date(out: &mut String, year: i32, month: u32, day: u32)
    ensures
        final(out)@ == old(out)@ + civil_date_text(year as int, month as int, day as int),
{
    if year < 0 {
        push_char(out, '-');
        push_padded_numeral(out, (-(year as i64)) as u64, 10, false, 4);
    } else if year > 9999 {
        push_char(out, '+');
        push_padded_numeral(out, year as u64, 10, false, 4);
    } else {
        push_padded_numeral(out, year as u64, 10, false, 4);
    }
    push_char(out, '-');
    push_two_digits(out, month as u64);
    push_char(out, '-');
    push_two_digits(out, day as u64);
}

/// Appends a clock time as `HH:MM:SS`.
pub fn push_clock(out: &mut String, hour: u32, minute: u32, second: u32)
    ensures
        final(out)@ == old(out)@ + clock_text(hour as int, minute as int, second as int),
{
    push_two_digits(out, hour as u64);
    push_char(out, ':');
    push_two_digits(out, minute as u64);
    push_char(out, ':');
    push_two_digits(out, second as u64);
}

/// Appends a civil date and a clock time, a space between them.
pub fn push_datetime(out: &mut String, at: (i32, u32, u32, u32, u32, u32))
    ensures
        final(out)@ == old(out)@ + datetime_text(at),
{
    push_civil_date(out, at.0, at.1, at.2);
    push_char(out, ' ');
    push_clock(out, at.3, at.4, at.5);
}

/// The text of an integer column.
pub fn integer_string(bytes: &Vec<u8>) -> (r: Result<String, FormatError>)
    ensures
        text_result(r) == integer_text(bytes@),
{
    let n: usize = bytes.len();
    if n == 1 || n == 2 || n == 4 || n == 8 {
        let mut out = String::new();
        push_signed_decimal(&mut out, le_i64(bytes.as_slice()));
        Ok(out)
    } else {
        Err(FormatError::UnsupportedIntegerWidth)
    }
}

/// The text of a character column.
pub fn character_string(bytes: &Vec<u8>) -> (r: String)
    ensures
        r@ == character_text(bytes@),
{
    match utf8_text(bytes.as_slice()) {
        Some(text) => {
            let all = chars_of(text);
            let kept = trimmed_chars(&all);
            text_of(&kept)
        },
        None => {
            let mut out = String::new();
            out.append("INVALID");
            out
        },
    }
}

/// The text of a boolean column.
pub fn boolean_string(bytes: &Vec<u8>) -> (r: Result<String, FormatError>)
    ensures
        text_result(r) == boolean_text(bytes@),
{
    if bytes.len() >= 1 {
        let mut out = String::new();
        push_decimal(&mut out, bytes[0] as u64);
        Ok(out)
    } else {
        Err(FormatError::WidthMismatch)
    }
}

/// The text of a date column.
pub fn date_string(bytes: &Vec<u8>) -> (r: Result<String, FormatError>)
    ensures
        text_result(r) == date_text(bytes@),
{
    if bytes.len() != 8 {
        return Err(FormatError::WidthMismatch);
    }
    let days: i64 = le_i64(bytes.as_slice());
    match add_days(EPOCH_YEAR, EPOCH_MONTH, EPOCH_DAY, days) {
        Some(date) => {
            let mut out = String::new();
            push_civil_date(&mut out, date.0, date.1, date.2);
            Ok(out)
        },
        None => Err(FormatError::OutOfRange),
    }
}

/// The text of a timestamp column.
pub fn timestamp_string(bytes: &Vec<u8>) -> (r: Result<String, FormatError>)
    ensures
        text_result(r) == timestamp_text(bytes@),
{
    if bytes.len() != 8 {
        return Err(FormatError::WidthMismatch);
    }
    let micros: i64 = le_i64(bytes.as_slice());
    match add_micros_and_hours(EPOCH_YEAR, EPOCH_MONTH, EPOCH_DAY, micros, 0) {
        Some(at) => {
            let mut out = String::new();
            push_datetime(&mut out, at);
            Ok(out)
        },
        None => Err(FormatError::OutOfRange),
    }
}

/// The text of a timestamp column with a zone.
pub fn timestamptz_string(bytes: &Vec<u8>, tz_offset: i8) -> (r: Result<String, FormatError>)
    ensures
        text_result(r) == timestamptz_text(bytes@, tz_offset),
{
    if bytes.len() != 8 {
        return Err(FormatError::WidthMismatch);
    }
    let micros: i64 = le_i64(bytes.as_slice());
    match add_micros_and_hours(EPOCH_YEAR, EPOCH_MONTH, EPOCH_DAY, micros, tz_offset as i64) {
        Some(at) => {
            let mut out = String::new();
            push_datetime(&mut out, at);
            push_signed_two_digits(&mut out, tz_offset as i64);
            Ok(out)
        },
        None => Err(FormatError::OutOfRange),
    }
}

/// The clock time `micros` microseconds after midnight as `HH:MM:SS`.
pub fn clock_string_after(micros: i64) -> (out: String)
    ensures
        out@ == clock_text_after(micros as int),
{
    let at = clock_after(micros);
    let mut out = String::new();
    push_clock(&mut out, at.0, at.1, at.2);
    out
}

/// The text of a time column.
pub fn time_string(bytes: &Vec<u8>) -> (r: Result<String, FormatError>)
    ensures
        text_result(r) == time_text(bytes@),
{
    if bytes.len() != 8 {
        return Err(FormatError::WidthMismatch);
    }
    Ok(clock_string_after(le_i64(bytes.as_slice())))
}

/// The text of a time column with a zone.
pub fn timetz_string(bytes: &Vec<u8>) -> (r: Result<String, FormatError>)
    ensures
        text_result(r) == timetz_text(bytes@),
{
    if bytes.len() != 8 {
        return Err(FormatError::WidthMismatch);
    }
    let word: u64 = le_u64(bytes.as_slice());
    let micros: u64 = word / 0x100_0000;
    let zone: u64 = word % 0x100_0000;
    let offset: i64 = 24 - (zone / 3_600) as i64;
    let total: i64 = micros as i64 + offset * 3_600_000_000;
    let mut out = clock_string_after(total);
    push_signed_two_digits(&mut out, offset);
    Ok(out)
}

/// The bytes of `bytes` that are not zero.
pub fn nonzero_bytes(bytes: &Vec<u8>) -> (kept: Vec<u8>)
    ensures
        kept@ == without_zeros(bytes@),
{
    let mut kept: Vec<u8> = Vec::new();
    let mut i: usize = 0;
    while i < bytes.len()
        invariant
            i <= bytes@.len(),
            kept@ == without_zeros(bytes@.take(i as int)),
        decreases bytes.len() - i,
    {
        proof {
            let next = bytes@.take(i + 1);
            assert(next.drop_last() =~= bytes@.take(i as int));
        }
        if bytes[i] != 0 {
            kept.push(bytes[i]);
        }
        i = i + 1;
    }
    proof {
        assert(bytes@.take(bytes@.len() as int) =~= bytes@);
    }
    kept
}

/// The text of a binary column.
pub fn binary_string(bytes: &Vec<u8>, conversion: &Option<ColumnConversion>) -> (r: String)
    ensures
        r@ == binary_text(bytes@, *conversion),
{
    let kept = nonzero_bytes(bytes);
    match conversion {
        Some(c) => c.convert(kept),
        None => {
            let mut out = String::new();
            push_char(&mut out, '0');
            push_char(&mut out, 'x');
            let ghost head = out@;
            let mut i: usize = 0;
            while i < kept.len()
                invariant
                    i <= kept@.len(),
                    out@ == head + hex_run(kept@.take(i as int)),
                decreases kept.len() - i,
            {
                let digits = numeral_chars(kept[i] as u64, 16, true);
                push_chars(&mut out, &digits);
                proof {
                    let next = kept@.take(i + 1);
                    assert(next.drop_last() =~= kept@.take(i as int));
                }
                i = i + 1;
            }
            proof {
                assert(kept@.take(kept@.len() as int) =~= kept@);
            }
            out
        },
    }
}

/// Appending a word to a run of words: it joins the words kept so far, and
/// it is the first to be kept if it is not zero and none was kept before.
pub proof fn lemma_from_first_nonzero_push(words: Seq<u64>, word: u64)
    ensures
        from_first_nonzero(words.push(word)) == if from_first_nonzero(words).len() > 0
            || word != 0 {
            from_first_nonzero(words).push(word)
        } else {
            Seq::<u64>::empty()
        },
    decreases words.len(),
{
    if words.len() == 0 {
        assert(words.push(word).skip(1) =~= Seq::<u64>::empty());
        assert(from_first_nonzero(Seq::<u64>::empty()) =~= Seq::<u64>::empty());
    } else if words[0] == 0 {
        assert(words.push(word).skip(1) =~= words.skip(1).push(word));
        lemma_from_first_nonzero_push(words.skip(1), word);
    }
}

/// The text of a numeric column.
pub fn numeric_string(bytes: &Vec<u8>) -> (out: String)
    ensures
        out@ == numeric_text(bytes@),
{
    let total: usize = bytes.len();
    let count: usize = total / 8;
    let ghost words = numeric_words(bytes@);
    let mut out = String::new();
    let mut started: bool = false;
    let mut i: usize = 0;
    while i < count
        invariant
            i <= count,
            total == bytes@.len(),
            count == total / 8,
            words == numeric_words(bytes@),
            out@ == decimals(from_first_nonzero(words.take(i as int))),
            started == (from_first_nonzero(words.take(i as int)).len() > 0),
        decreases count - i,
    {
        let word: u64 = le_u64(vstd::slice::slice_subrange(bytes.as_slice(), 8 * i, 8 * i + 8));
        proof {
            assert(words.take(i + 1) =~= words.take(i as int).push(word));
            lemma_from_first_nonzero_push(words.take(i as int), word);
        }
        if started || word != 0 {
            push_decimal(&mut out, word);
            started = true;
            proof {
                let kept = from_first_nonzero(words.take(i + 1));
                assert(kept.drop_last() =~= from_first_nonzero(words.take(i as int)));
            }
        }
        i = i + 1;
    }
    proof {
        assert(words.take(count as int) =~= words);
    }
    out
}

/// The text of an interval column.
pub fn interval_string(bytes: &Vec<u8>) -> (r: Result<String, FormatError>)
    ensures
        text_result(r) == interval_text(bytes@),
{
    if bytes.len() != 8 {
        return Err(FormatError::WidthMismatch);
    }
    let micros: i64 = le_i64(bytes.as_slice());
    let span: u64 = crate::text::magnitude(micros);
    let seconds: u64 = span / 1_000_000;
    let hours: i64 = (seconds / 3_600) as i64;
    let minutes: i64 = ((seconds % 3_600) / 60) as i64;
    let rest: i64 = (seconds % 60) as i64;
    let mut out = String::new();
    if micros < 0 {
        push_sign_padded_two(&mut out, -hours);
        push_char(&mut out, ':');
        push_sign_padded_two(&mut out, -minutes);
        push_char(&mut out, ':');
        push_sign_padded_two(&mut out, -rest);
    } else {
        push_sign_padded_two(&mut out, hours);
        push_char(&mut out, ':');
        push_sign_padded_two(&mut out, minutes);
        push_char(&mut out, ':');
        push_sign_padded_two(&mut out, rest);
    }
    proof {
        let fields = interval_fields(micros as int);
        assert(out@ =~= sign_padded_two(fields.0) + seq![':'] + sign_padded_two(fields.1) + seq![
            ':',
        ] + sign_padded_two(fields.2));
    }
    Ok(out)
}

/// A text, or the reason why there is none, as a `Formatted`.
pub fn text_or_error(r: Result<String, FormatError>) -> (f: Result<Formatted, FormatError>)
    ensures
        shown(f) == as_text(text_result(r)),
{
    match r {
        Ok(text) => Ok(Formatted::Text(text)),
        Err(e) => Err(e),
    }
}

impl ColumnType {
    /// What a column of this type shows for its raw bytes, `None` being a
    /// null: a null shows the empty text whatever the type. `tz_offset` is
    /// the offset in hours that a timestamp with a zone is moved by;
    /// `column_conversion` is how a binary column is to be read.
    pub fn format_value(
        &self,
        value: &Option<Vec<u8>>,
        tz_offset: i8,
        column_conversion: &Option<ColumnConversion>,
    ) -> (r: Result<Formatted, FormatError>)
        ensures
            shown(r) == formatted(*self, raw(*value), tz_offset, *column_conversion),
    {
        match value {
            None => Ok(Formatted::Text(String::new())),
            Some(bytes) => match self {
                ColumnType::Integer => text_or_error(integer_string(bytes)),
                ColumnType::Float => {
                    if bytes.len() == 8 {
                        Ok(Formatted::Double(le_u64(bytes.as_slice())))
                    } else {
                        Err(FormatError::WidthMismatch)
                    }
                },
                ColumnType::Char | ColumnType::Varchar => Ok(
                    Formatted::Text(character_string(bytes)),
                ),
                ColumnType::Boolean => text_or_error(boolean_string(bytes)),
                ColumnType::Date => text_or_error(date_string(bytes)),
                ColumnType::Timestamp => text_or_error(timestamp_string(bytes)),
                ColumnType::TimestampTz => text_or_error(timestamptz_string(bytes, tz_offset)),
                ColumnType::Time => text_or_error(time_string(bytes)),
                ColumnType::TimeTz => text_or_error(timetz_string(bytes)),
                ColumnType::Varbinary | ColumnType::Binary => Ok(
                    Formatted::Text(binary_string(bytes, column_conversion)),
                ),
                ColumnType::Numeric => Ok(Formatted::Text(numeric_string(bytes))),
                ColumnType::Interval => text_or_error(interval_string(bytes)),
            },
        }
    }
}

/// An integer that is written in 1, 2, 4 or 8 little-endian bytes, in two's
/// complement, reads back as itself: the column shows its decimal numeral,
/// which stands for the integer.
pub proof fn lemma_integer_round_trip(
    value: int,
    width: nat,
    tz_offset: i8,
    conversion: Option<ColumnConversion>,
)
    requires
        width == 1 || width == 2 || width == 4 || width == 8,
        -(radix(width) as int) <= 2 * value < radix(width),
    ensures
        le_signed(le_bytes_signed(value, width)) == value,
        formatted(ColumnType::Integer, Some(le_bytes_signed(value, width)), tz_offset, conversion)
            == Ok::<FormattedView, FormatError>(FormattedView::Text(signed_decimal(value))),
        signed_decimal_value(signed_decimal(value)) == Some(value),
{
    lemma_le_signed_of_bytes(value, width);
    if value < 0 {
        lemma_le_bytes_len((value + radix(width)) as nat, width);
    } else {
        lemma_le_bytes_len(value as nat, width);
    }
    lemma_signed_decimal_reads_back(value);
}

/// A timestamp with a zone that is moved by no hour shows what the timestamp
/// without a zone shows for the same bytes, and `+00` after it; the two fail
/// alike.
pub proof fn lemma_timestamptz_without_offset(
    bytes: Seq<u8>,
    conversion: Option<ColumnConversion>,
    other_offset: i8,
    other_conversion: Option<ColumnConversion>,
)
    ensures
        match formatted(ColumnType::Timestamp, Some(bytes), other_offset, other_conversion) {
            Ok(FormattedView::Text(text)) => formatted(
                ColumnType::TimestampTz,
                Some(bytes),
                0,
                conversion,
            ) == Ok::<FormattedView, FormatError>(FormattedView::Text(text + seq!['+', '0', '0'])),
            Ok(FormattedView::Double(_)) => false,
            Err(e) => formatted(ColumnType::TimestampTz, Some(bytes), 0, conversion) == Err::<
                FormattedView,
                FormatError,
            >(e),
        },
{
    assert(signed_two_digits(0) =~= seq!['+', '0', '0']);
}

/// A null shows the empty text, whatever the column's type, the offset and
/// the conversion.
pub proof fn lemma_null_shows_nothing(
    ty: ColumnType,
    tz_offset: i8,
    conversion: Option<ColumnConversion>,
)
    ensures
        formatted(ty, None, tz_offset, conversion) == Ok::<FormattedView, FormatError>(
            FormattedView::Text(Seq::empty()),
        ),
{
}

/// What a column shows depends on nothing but its type, its bytes, the
/// offset and the conversion: two results for the same of these are alike.
pub proof fn lemma_formatting_is_a_function(
    ty: ColumnType,
    value: Option<Seq<u8>>,
    tz_offset: i8,
    conversion: Option<ColumnConversion>,
    first: Result<Formatted, FormatError>,
    second: Result<Formatted, FormatError>,
)
    requires
        shown(first) == formatted(ty, value, tz_offset, conversion),
        shown(second) == formatted(ty, value, tz_offset, conversion),
    ensures
        shown(first) == shown(second),
{
}

/// What a column holds as a typed value: nothing, a whole number, the 64
/// bits of an IEEE-754 double, a text, or a truth value.
#[derive(Debug, Clone, PartialEq, Eq)]
pub enum JsonValue {
    Null,
    Integer(i64),
    Double(u64),
    Text(String),
    Boolean(bool),
}

/// The mathematical value of a `JsonValue`.
pub enum JsonView {
    Null,
    Integer(i64),
    Double(u64),
    Text(Seq<char>),
    Boolean(bool),
}

impl View for JsonValue {
    type V = JsonView;

    open spec fn view(&self) -> JsonView {
        match self {
            JsonValue::Null => JsonView::Null,
            JsonValue::Integer(i) => JsonView::Integer(*i),
            JsonValue::Double(bits) => JsonView::Double(*bits),
            JsonValue::Text(s) => JsonView::Text(s@),
            JsonValue::Boolean(b) => JsonView::Boolean(*b),
        }
    }
}

/// The view of a typed value or the reason why there is none.
pub open spec fn typed_view(r: Result<JsonValue, FormatError>) -> Result<JsonView, FormatError> {
    match r {
        Ok(v) => Ok(v@),
        Err(e) => Err(e),
    }
}

/// The typed value of a column: nothing for a null, whatever the type; a
/// whole number for an integer column and for a numeric column, whose text
/// is read as one number and which holds nothing where its text is empty;
/// the bits of the double for a floating-point column; whether the first
/// byte is 1 for a boolean column; and the text that the column shows for
/// any other.
pub open spec fn typed(
    ty: ColumnType,
    value: Option<Seq<u8>>,
    tz_offset: i8,
    conversion: Option<ColumnConversion>,
) -> Result<JsonView, FormatError> {
    match value {
        None => Ok(JsonView::Null),
        Some(bytes) => match ty {
            ColumnType::Integer => match integer_text(bytes) {
                Ok(_) => Ok(JsonView::Integer(le_signed(bytes) as i64)),
                Err(e) => Err(e),
            },
            ColumnType::Numeric => if numeric_text(bytes).len() == 0 {
                Ok(JsonView::Null)
            } else {
                match parsed_i64(numeric_text(bytes)) {
                    Some(v) => Ok(JsonView::Integer(v)),
                    None => Err(FormatError::NumberTooLarge),
                }
            },
            ColumnType::Boolean => match boolean_text(bytes) {
                Ok(_) => Ok(JsonView::Boolean(bytes[0] == 1)),
                Err(e) => Err(e),
            },
            _ => match formatted(ty, value, tz_offset, conversion) {
                Ok(FormattedView::Text(text)) => Ok(JsonView::Text(text)),
                Ok(FormattedView::Double(bits)) => Ok(JsonView::Double(bits)),
                Err(e) => Err(e),
            },
        },
    }
}

impl ColumnType {
    /// The typed value of a column of this type for its raw bytes, `None`
    /// being a null.
    pub fn typed_value(
        &self,
        value: &Option<Vec<u8>>,
        tz_offset: i8,
        column_conversion: &Option<ColumnConversion>,
    ) -> (r: Result<JsonValue, FormatError>)
        ensures
            typed_view(r) == typed(*self, raw(*value), tz_offset, *column_conversion),
    {
        match value {
            None => Ok(JsonValue::Null),
            Some(bytes) => match self {
                ColumnType::Integer => {
                    let n: usize = bytes.len();
                    if n == 1 || n == 2 || n == 4 || n == 8 {
                        Ok(JsonValue::Integer(le_i64(bytes.as_slice())))
                    } else {
                        Err(FormatError::UnsupportedIntegerWidth)
                    }
                },
                ColumnType::Numeric => {
                    let text = numeric_string(bytes);
                    let digits = chars_of(text.as_str());
                    if digits.len() == 0 {
                        Ok(JsonValue::Null)
                    } else {
                        match parse_i64(&digits) {
                            Some(v) => Ok(JsonValue::Integer(v)),
                            None => Err(FormatError::NumberTooLarge),
                        }
                    }
                },
                ColumnType::Boolean => {
                    if bytes.len() >= 1 {
                        Ok(JsonValue::Boolean(bytes[0] == 1))
                    } else {
                        Err(FormatError::WidthMismatch)
                    }
                },
                _ => match self.format_value(value, tz_offset, column_conversion) {
                    Ok(Formatted::Text(text)) => Ok(JsonValue::Text(text)),
                    Ok(Formatted::Double(bits)) => Ok(JsonValue::Double(bits)),
                    Err(e) => Err(e),
                },
            },
        }
    }
}

/// A null holds nothing as a typed value, whatever the column's type.
pub proof fn lemma_null_holds_nothing(
    ty: ColumnType,
    tz_offset: i8,
    conversion: Option<ColumnConversion>,
)
    ensures
        typed(ty, None, tz_offset, conversion) == Ok::<JsonView, FormatError>(JsonView::Null),
{
}

} // verus!
