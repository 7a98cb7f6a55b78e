//! What a run does with each row: where it stops, where it starts a further
//! file, and what it writes round the rows of a JSON result.
use vstd::prelude::*;
use crate::args::Args;
use crate::column_types::ColumnTypes;

verus! {

/// What a run does with a row.
#[derive(Debug, Clone, Copy, PartialEq, Eq, Structural)]
pub enum RowStep {
    /// The row and those after it are left out.
    Stop,
    /// The row is written to the file at hand.
    Write,
    /// A further file with this number is started, and the row written to it.
    WriteToNewFile(usize),
}

/// What a run does with row `index`, counted from zero, where it converts at
/// most `limit` rows and starts a further file after every `max_rows` rows;
/// the further files are numbered from 1. With `max_rows` zero there is one
/// file only.
pub open spec fn step_for(index: usize, limit: usize, max_rows: usize) -> RowStep {
    if index >= limit {
        RowStep::Stop
    } else if index > 0 && max_rows != 0 && index % max_rows == 0 {
        RowStep::WriteToNewFile(index / max_rows)
    } else {
        RowStep::Write
    }
}

/// What a run does with row `index`.
pub fn row_step(index: usize, limit: usize, max_rows: usize) -> (step: RowStep)
    ensures
        step == step_for(index, limit, max_rows),
{
    if index >= limit {
        RowStep::Stop
    } else if index > 0 && max_rows != 0 && index % max_rows == 0 {
        RowStep::WriteToNewFile(index / max_rows)
    } else {
        RowStep::Write
    }
}

/// What a JSON result holds round its rows.
#[derive(Debug, Clone, Copy)]
pub struct JsonFraming {
    /// What the result starts with.
    pub opening: &'static str,
    /// What stands before each row but the first.
    pub between_rows: &'static str,
    /// What follows each row.
    pub after_row: &'static str,
    /// What the result ends with.
    pub closing: &'static str,
}

/// What a JSON result holds round its rows: one array with commas between
/// the rows, and a line feed after it; or, as JSON Lines, a line feed after
/// each row and nothing else.
pub fn json_framing(is_json_lines: bool) -> (framing: JsonFraming)
    ensures
        is_json_lines ==> framing.opening@ == ""@ && framing.between_rows@ == ""@
            && framing.after_row@ == "\n"@ && framing.closing@ == ""@,
        !is_json_lines ==> framing.opening@ == "["@ && framing.between_rows@ == ","@
            && framing.after_row@ == ""@ && framing.closing@ == "]\n"@,
{
    if is_json_lines {
        JsonFraming { opening: "", between_rows: "", after_row: "\n", closing: "" }
    } else {
        JsonFraming { opening: "[", between_rows: ",", after_row: "", closing: "]\n" }
    }
}

/// The message for a JSON result whose columns are not all named.
pub open spec fn names_required() -> Seq<char> {
    "JSON files require column names in types file"@
}

impl Args {
    /// Whether the result is JSON, as one array or as JSON Lines.
    pub fn writes_json(&self) -> (json: bool)
        ensures
            json == (self.is_json || self.is_json_lines),
    {
        self.is_json || self.is_json_lines
    }

    /// The byte that quotes the fields of a record.
    pub fn quote(&self) -> (quote: u8)
        ensures
            quote == if self.single_quotes {
                39u8
            } else {
                34u8
            },
    {
        if self.single_quotes {
            39
        } else {
            34
        }
    }

    /// Whether a record of column names starts a file of comma-separated
    /// values: it does unless it was switched off or a column has no name.
    pub fn writes_header(&self, types: &ColumnTypes) -> (header: bool)
        ensures
            header == (!self.no_header && forall|i: int|
                0 <= i < types.column_names@.len() ==> types.column_names@[i]@.len() > 0),
    {
        !self.no_header && types.has_names()
    }
}

impl ColumnTypes {
    /// Accepts the schema for a JSON result, which names each value by its
    /// column: every column must have a name.
    pub fn require_names(&self) -> (r: Result<(), String>)
        ensures
            match r {
                Ok(_) => forall|i: int|
                    0 <= i < self.column_names@.len() ==> self.column_names@[i]@.len() > 0,
                Err(message) => message@ == names_required() && exists|i: int|
                    0 <= i < self.column_names@.len() && self.column_names@[i]@.len() == 0,
            },
    {
        if self.has_names() {
            Ok(())
        } else {
            let mut message = String::new();
            message.append("JSON files require column names in types file");
            Err(message)
        }
    }
}

} // verus!
