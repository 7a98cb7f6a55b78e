use verticareader::output_name::{numbered, OutputNameError};
use verticareader::{
    checked_output_file_name, generate_output_file_name, validate_output_file_name_ok, Args,
};

#[test]
fn test_output_filename_generation_based_on_input_csv() {
    let mut args = Args::with_defaults();
    args.input = "foo".to_string();

    let file_name = generate_output_file_name(&args, None).unwrap();
    assert_eq!(file_name, "foo.csv")
}

#[test]
fn test_output_filename_generation_based_on_input_json() {
    let mut args = Args::with_defaults();
    args.input = "foo".to_string();
    args.is_json = true;

    let file_name = generate_output_file_name(&args, None).unwrap();
    assert_eq!(file_name, "foo.json")
}

#[test]
fn test_output_filename_generation_based_on_input_jsonl() {
    let mut args = Args::with_defaults();
    args.input = "foo".to_string();
    args.is_json_lines = true;

    let file_name = generate_output_file_name(&args, None).unwrap();
    assert_eq!(file_name, "foo.jsonl")
}

#[test]
fn test_output_filename_generation_based_on_input_csv_with_iteration() {
    let mut args = Args::with_defaults();
    args.input = "foo".to_string();

    let file_name = generate_output_file_name(&args, Some(1)).unwrap();
    assert_eq!(file_name, "foo-1.csv")
}

#[test]
fn test_output_filename_generation_based_on_input_json_with_iteration() {
    let mut args = Args::with_defaults();
    args.input = "foo".to_string();
    args.is_json = true;

    let file_name = generate_output_file_name(&args, Some(1)).unwrap();
    assert_eq!(file_name, "foo-1.json")
}

#[test]
fn test_output_filename_generation_based_on_input_jsonl_with_iteration() {
    let mut args = Args::with_defaults();
    args.input = "foo".to_string();
    args.is_json_lines = true;

    let file_name = generate_output_file_name(&args, Some(1)).unwrap();
    assert_eq!(file_name, "foo-1.jsonl")
}

#[test]
fn test_output_filename_generation_based_on_input_csv_gzipped() {
    let mut args = Args::with_defaults();
    args.input = "foo".to_string();
    args.is_gzip = true;

    let file_name = generate_output_file_name(&args, None).unwrap();
    assert_eq!(file_name, "foo.csv.gz")
}

#[test]
fn test_output_filename_generation_based_on_input_json_gzipped() {
    let mut args = Args::with_defaults();
    args.input = "foo".to_string();
    args.is_json = true;
    args.is_gzip = true;

    let file_name = generate_output_file_name(&args, None).unwrap();
    assert_eq!(file_name, "foo.json.gz")
}

#[test]
fn test_output_filename_generation_based_on_input_jsonl_gzipped() {
    let mut args = Args::with_defaults();
    args.input = "foo".to_string();
    args.is_json_lines = true;
    args.is_gzip = true;

    let file_name = generate_output_file_name(&args, None).unwrap();
    assert_eq!(file_name, "foo.jsonl.gz")
}

#[test]
fn test_output_filename_generation_based_on_input_csv_gzipped_with_iteration() {
    let mut args = Args::with_defaults();
    args.input = "foo".to_string();
    args.is_gzip = true;

    let file_name = generate_output_file_name(&args, Some(1)).unwrap();
    assert_eq!(file_name, "foo-1.csv.gz")
}

#[test]
fn test_output_filename_generation_based_on_input_json_gzipped_with_iteration() {
    let mut args = Args::with_defaults();
    args.input = "foo".to_string();
    args.is_json = true;
    args.is_gzip = true;

    let file_name = generate_output_file_name(&args, Some(1)).unwrap();
    assert_eq!(file_name, "foo-1.json.gz")
}

#[test]
fn test_output_filename_generation_based_on_input_jsonl_gzipped_with_iteration() {
    let mut args = Args::with_defaults();
    args.input = "foo".to_string();
    args.is_json_lines = true;
    args.is_gzip = true;

    let file_name = generate_output_file_name(&args, Some(1)).unwrap();
    assert_eq!(file_name, "foo-1.jsonl.gz")
}

#[test]
fn test_output_filename_generation_from_specified() {
    let mut args = Args::with_defaults();
    args.input = "foo".to_string();
    args.output = Some("bar.csv".to_string());

    let file_name = generate_output_file_name(&args, None).unwrap();
    assert_eq!(file_name, "bar.csv")
}

#[test]
fn test_output_filename_generation_from_specified_with_iteration() {
    let mut args = Args::with_defaults();
    args.input = "foo".to_string();
    args.output = Some("bar.csv".to_string());

    let file_name = generate_output_file_name(&args, Some(2)).unwrap();
    assert_eq!(file_name, "bar-2.csv")
}

#[test]
fn test_output_filename_generation_from_specified_with_iteration_and_gzip() {
    let mut args = Args::with_defaults();
    args.input = "foo".to_string();
    args.output = Some("bar.csv.gz".to_string());

    let file_name = generate_output_file_name(&args, Some(2)).unwrap();
    assert_eq!(file_name, "bar-2.csv.gz")
}

#[test]
fn test_output_filename_generation_from_specified_with_iteration_and_multiple_dots() {
    let mut args = Args::with_defaults();
    args.input = "foo".to_string();
    args.output = Some("bar.foo.quux.csv.gz".to_string());

    let file_name = generate_output_file_name(&args, Some(2)).unwrap();
    assert_eq!(file_name, "bar.foo.quux-2.csv.gz")
}

#[test]
fn test_output_filename_generation_from_specified_with_iteration_and_one_extension() {
    let mut args = Args::with_defaults();
    args.input = "foo".to_string();
    args.output = Some("bar.csv".to_string());

    let file_name = generate_output_file_name(&args, Some(2)).unwrap();
    assert_eq!(file_name, "bar-2.csv")
}

#[test]
fn test_output_filename_generation_from_specified_with_iteration_and_no_dots() {
    let mut args = Args::with_defaults();
    args.input = "foo".to_string();
    args.output = Some("bar".to_string());

    let file_name = generate_output_file_name(&args, Some(2)).unwrap();
    assert_eq!(file_name, "bar-2")
}

#[test]
fn test_output_filename_generation_with_directory_in_original() {
    let mut args = Args::with_defaults();
    args.input = "/long/path/to/data/foo".to_string();

    let file_name = generate_output_file_name(&args, None).unwrap();
    assert_eq!(file_name, "foo.csv")
}

#[test]
fn test_validate_output_file_name_ok_with_good_file_name() {
    let output_file_name = "bar.csv";

    let args = Args::with_most_defaults(
        String::from("data/all-types.bin"),
        Some(output_file_name.to_string()),
        String::from("data/all-valid-types.txt"),
    );

    let rc = validate_output_file_name_ok(&args, &output_file_name.to_string());

    assert!(rc.is_ok());
}

#[test]
fn test_validate_output_file_name_ok_with_same_name_as_input() {
    let file_name = "data/all-types.bin";

    let args = Args::with_most_defaults(
        String::from(file_name),
        Some(file_name.to_string()),
        String::from("data/all-valid-types.txt"),
    );

    let rc = validate_output_file_name_ok(&args, &file_name.to_string());

    assert!(rc.is_err());
    assert_eq!("can't overwrite input file", rc.unwrap_err().to_string());
}

#[test]
fn test_validate_output_file_name_ok_with_same_name_as_types_file() {
    let file_name = "data/all-valid-types.txt";

    let args = Args::with_most_defaults(
        String::from("data/all-types.bin"),
        Some(file_name.to_string()),
        String::from(file_name),
    );

    let rc = validate_output_file_name_ok(&args, &file_name.to_string());

    assert!(rc.is_err());
    assert_eq!("can't overwrite types file", rc.unwrap_err().to_string());
}

#[test]
fn defaults_are_as_documented() {
    let args = Args::with_defaults();
    assert_eq!(args.input, "");
    assert_eq!(args.output, None);
    assert_eq!(args.types, "");
    assert_eq!(args.tz_offset, 0);
    assert_eq!(args.delimiter, b',');
    assert!(!args.no_header);
    assert!(!args.single_quotes);
    assert!(!args.is_json);
    assert!(!args.is_json_lines);
    assert!(!args.is_gzip);
    assert_eq!(args.limit, 5);
    assert!(!args.hex_prefix);

    let args = Args::with_most_defaults("a".to_string(), Some("b".to_string()), "c".to_string());
    assert_eq!(args.input, "a");
    assert_eq!(args.output, Some("b".to_string()));
    assert_eq!(args.types, "c");
    assert_eq!(args.delimiter, b',');
    assert_eq!(args.limit, 5);
}

#[test]
fn input_without_a_file_name_gives_no_output_name() {
    let mut args = Args::with_defaults();
    args.input = "..".to_string();
    assert_eq!(generate_output_file_name(&args, None), Err(OutputNameError::NoFileName));
    assert_eq!(OutputNameError::NoFileName.to_string(), "bad output file name");
}

#[test]
fn json_wins_over_json_lines_in_the_extension() {
    let mut args = Args::with_defaults();
    args.input = "foo".to_string();
    args.is_json = true;
    args.is_json_lines = true;
    assert_eq!(generate_output_file_name(&args, Some(12)).unwrap(), "foo-12.json");
}

#[test]
fn number_goes_before_the_extensions() {
    assert_eq!(numbered("bar", 0), "bar-0");
    assert_eq!(numbered("bar.txt", 10), "bar-10.txt");
    assert_eq!(numbered("bar.json.gz", 3), "bar-3.json.gz");
    assert_eq!(numbered("bar.jsonl.gz", 3), "bar-3.jsonl.gz");
    assert_eq!(numbered("bar.tar.gz", 3), "bar.tar-3.gz");
    // a format extension that is the first part is the name, not an extension
    assert_eq!(numbered("csv.gz", 4), "csv-4.gz");
    assert_eq!(numbered(".csv.gz", 4), "-4.csv.gz");
    assert_eq!(numbered("bar.", 1), "bar-1.");
    assert_eq!(numbered("", 1), "-1");
    assert_eq!(numbered("a.b", usize::MAX), format!("a-{}.b", usize::MAX));
}

#[test]
fn checked_name_refuses_the_files_that_are_read() {
    let args = Args::with_most_defaults(
        "in.bin".to_string(),
        Some("in.bin".to_string()),
        "types.txt".to_string(),
    );
    assert_eq!(checked_output_file_name(&args, None), Err(OutputNameError::OverwritesInput));
    assert_eq!(checked_output_file_name(&args, Some(1)), Ok("in-1.bin".to_string()));

    let args = Args::with_most_defaults(
        "in.bin".to_string(),
        Some("types.txt".to_string()),
        "types.txt".to_string(),
    );
    assert_eq!(checked_output_file_name(&args, None), Err(OutputNameError::OverwritesTypes));

    let args = Args::with_most_defaults("in.bin".to_string(), None, "types.txt".to_string());
    assert_eq!(checked_output_file_name(&args, None), Ok("in.bin.csv".to_string()));
}

#[test]
fn input_is_checked_before_types() {
    let args = Args::with_most_defaults("same".to_string(), None, "same".to_string());
    assert_eq!(
        validate_output_file_name_ok(&args, &"same".to_string()),
        Err(OutputNameError::OverwritesInput)
    );
}
