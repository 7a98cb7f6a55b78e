use verticareader::column_types::ColumnTypes;
use verticareader::plan::{json_framing, row_step, RowStep};
use verticareader::Args;

fn schema(description: &str) -> ColumnTypes {
    let lines: Vec<String> = description.lines().map(|line| line.to_string()).collect();
    ColumnTypes::from_reader(&lines).unwrap()
}

#[test]
fn rows_beyond_the_limit_are_left_out() {
    assert_eq!(row_step(0, 0, usize::MAX), RowStep::Stop);
    assert_eq!(row_step(0, 5, usize::MAX), RowStep::Write);
    assert_eq!(row_step(4, 5, usize::MAX), RowStep::Write);
    assert_eq!(row_step(5, 5, usize::MAX), RowStep::Stop);
    assert_eq!(row_step(6, 5, 2), RowStep::Stop);
    assert_eq!(row_step(usize::MAX, usize::MAX, 1), RowStep::Stop);
}

#[test]
fn a_further_file_starts_after_every_so_many_rows() {
    let steps: Vec<RowStep> = (0..10).map(|i| row_step(i, usize::MAX, 5)).collect();
    let mut expected = vec![RowStep::Write; 10];
    expected[5] = RowStep::WriteToNewFile(1);
    assert_eq!(steps, expected);

    assert_eq!(row_step(0, 100, 1), RowStep::Write);
    assert_eq!(row_step(1, 100, 1), RowStep::WriteToNewFile(1));
    assert_eq!(row_step(2, 100, 1), RowStep::WriteToNewFile(2));
    assert_eq!(row_step(9, 100, 3), RowStep::WriteToNewFile(3));
    assert_eq!(row_step(10, 100, 3), RowStep::Write);
    // without a number of rows for a file there is one file only
    assert_eq!(row_step(7, 100, 0), RowStep::Write);
    // the limit counts first
    assert_eq!(row_step(5, 5, 5), RowStep::Stop);
}

#[test]
fn json_is_one_array_or_one_object_on_each_line() {
    let array = json_framing(false);
    assert_eq!(array.opening, "[");
    assert_eq!(array.between_rows, ",");
    assert_eq!(array.after_row, "");
    assert_eq!(array.closing, "]\n");

    let lines = json_framing(true);
    assert_eq!(lines.opening, "");
    assert_eq!(lines.between_rows, "");
    assert_eq!(lines.after_row, "\n");
    assert_eq!(lines.closing, "");
}

#[test]
fn options_of_the_result() {
    let mut args = Args::with_defaults();
    assert!(!args.writes_json());
    assert_eq!(args.quote(), b'"');
    args.single_quotes = true;
    assert_eq!(args.quote(), b'\'');
    args.is_json_lines = true;
    assert!(args.writes_json());
    args.is_json_lines = false;
    args.is_json = true;
    assert!(args.writes_json());
}

#[test]
fn header_is_written_for_named_columns_unless_switched_off() {
    let named = schema("int/a\nfloat/b");
    let unnamed = schema("int/a\nfloat");
    let mut args = Args::with_defaults();
    assert!(args.writes_header(&named));
    assert!(!args.writes_header(&unnamed));
    args.no_header = true;
    assert!(!args.writes_header(&named));
    assert!(!args.writes_header(&unnamed));
}

#[test]
fn json_asks_for_a_name_for_every_column() {
    assert_eq!(schema("int/a\nfloat/b").require_names(), Ok(()));
    assert_eq!(schema("").require_names(), Ok(()));
    assert_eq!(
        schema("int/a\nfloat").require_names(),
        Err("JSON files require column names in types file".to_string())
    );
}
