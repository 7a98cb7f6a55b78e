//! The options of a conversion run.
use vstd::prelude::*;

verus! {

/// What a run converts and how it writes the result.
#[derive(Debug)]
pub struct Args {
    /// The file to convert.
    pub input: String,
    /// The file to write, `-` for the standard output; where there is none
    /// the name is made from the input's.
    pub output: Option<String>,
    /// The file that describes the columns.
    pub types: String,
    /// The offset in hours that timestamps with a zone are moved by.
    pub tz_offset: i8,
    /// The byte that separates the fields of a record.
    pub delimiter: u8,
    /// Whether the record of column names is left out.
    pub no_header: bool,
    /// Whether fields are quoted with `'` rather than `"`.
    pub single_quotes: bool,
    /// Whether the result is one JSON array.
    pub is_json: bool,
    /// Whether the result is one JSON object on each line.
    pub is_json_lines: bool,
    /// Whether the result is compressed.
    pub is_gzip: bool,
    /// How many rows are converted at most.
    pub limit: usize,
    /// Whether hexadecimal texts start with `0x`.
    pub hex_prefix: bool,
}

/// The byte that separates the fields of a record unless another is chosen:
/// a comma.
pub const DEFAULT_DELIMITER: u8 = 44;

/// How many rows are converted where no other limit is chosen here.
pub const DEFAULT_LIMIT: usize = 5;

impl Args {
    /// Whether every option but the three file names has its default.
    pub open spec fn has_defaults(&self) -> bool {
        &&& self.tz_offset == 0
        &&& self.delimiter == DEFAULT_DELIMITER
        &&& !self.no_header
        &&& !self.single_quotes
        &&& !self.is_json
        &&& !self.is_json_lines
        &&& !self.is_gzip
        &&& self.limit == DEFAULT_LIMIT
        &&& !self.hex_prefix
    }

    /// The options with no file named and every other option at its default.
    pub fn with_defaults() -> (args: Args)
        ensures
            args.input@ == Seq::<char>::empty(),
            args.output is None,
            args.types@ == Seq::<char>::empty(),
            args.has_defaults(),
    {
        Args {
            input: String::new(),
            output: None,
            types: String::new(),
            tz_offset: 0,
            delimiter: DEFAULT_DELIMITER,
            no_header: false,
            single_quotes: false,
            is_json: false,
            is_json_lines: false,
            is_gzip: false,
            limit: DEFAULT_LIMIT,
            hex_prefix: false,
        }
    }

    /// The options with the given files and every other option at its
    /// default.
    pub fn with_most_defaults(input: String, output: Option<String>, types: String) -> (args: Args)
        ensures
            args.input == input,
            args.output == output,
            args.types == types,
            args.has_defaults(),
    {
        Args {
            input,
            output,
            types,
            tz_offset: 0,
            delimiter: DEFAULT_DELIMITER,
            no_header: false,
            single_quotes: false,
            is_json: false,
            is_json_lines: false,
            is_gzip: false,
            limit: DEFAULT_LIMIT,
            hex_prefix: false,
        }
    }
}

} // verus!
