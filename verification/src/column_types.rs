//! The schema of a file as its description states it: one line for each
//! column, with the column's type, then, each after a `/`, a name and a
//! conversion, both of which may be missing.
use vstd::prelude::*;
use crate::column_conversion::{conversion_named, ColumnConversion};
use crate::column_type::{type_of_text, ColumnType};
use crate::text::{chars_of, lowercased, split, split_chars, text_of, texts, trimmed, trimmed_chars};

verus! {

/// The types of the columns of a file, their names and their conversions,
/// each in the order of the columns.
#[derive(Debug)]
pub struct ColumnTypes {
    pub column_types: Vec<ColumnType>,
    /// The name of each column, empty where the description gives none.
    pub column_names: Vec<String>,
    pub column_conversions: Vec<Option<ColumnConversion>>,
}

/// What the description says of one column.
pub struct ColumnLine {
    pub column_type: ColumnType,
    pub name: Seq<char>,
    pub conversion: Option<ColumnConversion>,
}

/// The texts that a list of strings holds.
pub open spec fn strings(list: Seq<String>) -> Seq<Seq<char>> {
    Seq::new(list.len(), |i: int| list[i]@)
}

/// What a line that is not empty says of its column. The line's fields are
/// separated by `/` and count without the white space round them: the first
/// names the type, the second, if there is one, is the column's name, and the
/// third, if there is one, names a conversion; a third field that names none
/// counts as missing. A first field that names no type rejects the line.
pub open spec fn line_parsed(line: Seq<char>) -> Result<ColumnLine, Seq<char>> {
    let fields = split(line, '/');
    match type_of_text(trimmed(fields[0])) {
        Err(message) => Err(message),
        Ok(column_type) => Ok(
            ColumnLine {
                column_type,
                name: if fields.len() > 1 {
                    trimmed(fields[1])
                } else {
                    Seq::empty()
                },
                conversion: if fields.len() > 2 {
                    conversion_named(lowercased(trimmed(fields[2])))
                } else {
                    None
                },
            },
        ),
    }
}

/// What the lines of a description say of the columns: empty lines do not
/// count, and the first line that is rejected rejects the description.
pub open spec fn schema_parsed(lines: Seq<Seq<char>>) -> Result<Seq<ColumnLine>, Seq<char>>
    decreases lines.len(),
{
    if lines.len() == 0 {
        Ok(Seq::empty())
    } else {
        match schema_parsed(lines.drop_last()) {
            Err(message) => Err(message),
            Ok(columns) => if lines.last().len() == 0 {
                Ok(columns)
            } else {
                match line_parsed(lines.last()) {
                    Err(message) => Err(message),
                    Ok(column) => Ok(columns.push(column)),
                }
            },
        }
    }
}

impl View for ColumnTypes {
    type V = Seq<ColumnLine>;

    open spec fn view(&self) -> Seq<ColumnLine> {
        Seq::new(
            self.column_types@.len(),
            |i: int|
                ColumnLine {
                    column_type: self.column_types@[i],
                    name: self.column_names@[i]@,
                    conversion: self.column_conversions@[i],
                },
        )
    }
}

impl ColumnTypes {
    /// Whether there is a name and a conversion entry for each type.
    pub open spec fn well_formed(&self) -> bool {
        &&& self.column_names@.len() == self.column_types@.len()
        &&& self.column_conversions@.len() == self.column_types@.len()
    }

    /// The schema that the lines of a description state, or the message that
    /// rejects the first line whose type is unknown.
    pub fn from_reader(lines: &Vec<String>) -> (r: Result<ColumnTypes, String>)
        ensures
            match schema_parsed(strings(lines@)) {
                Ok(columns) => r is Ok && r->Ok_0.well_formed() && r->Ok_0@ == columns,
                Err(message) => r is Err && r->Err_0@ == message,
            },
    {
        let mut column_types: Vec<ColumnType> = Vec::new();
        let mut column_names: Vec<String> = Vec::new();
        let mut column_conversions: Vec<Option<ColumnConversion>> = Vec::new();
        let ghost all = strings(lines@);
        let mut i: usize = 0;
        while i < lines.len()
            invariant
                i <= lines@.len(),
                all == strings(lines@),
                column_names@.len() == column_types@.len(),
                column_conversions@.len() == column_types@.len(),
                schema_parsed(all.take(i as int)) matches Ok(columns) && columns =~= (ColumnTypes {
                    column_types,
                    column_names,
                    column_conversions,
                })@,
            decreases lines.len() - i,
        {
            let chars = chars_of(lines[i].as_str());
            proof {
                assert(all.take(i + 1).drop_last() =~= all.take(i as int));
            }
            if chars.len() > 0 {
                let fields = split_chars(&chars, '/');
                let type_text = text_of(&trimmed_chars(&fields[0]));
                match ColumnType::from_string(type_text.as_str()) {
                    Err(message) => {
                        proof {
                            lemma_schema_rejected(all, i + 1);
                        }
                        return Err(message);
                    },
                    Ok(column_type) => {
                        let name = if fields.len() > 1 {
                            text_of(&trimmed_chars(&fields[1]))
                        } else {
                            String::new()
                        };
                        let conversion = if fields.len() > 2 {
                            let conversion_text = text_of(&trimmed_chars(&fields[2]));
                            match ColumnConversion::from_string(conversion_text.as_str()) {
                                Ok(conversion) => Some(conversion),
                                Err(_) => None,
                            }
                        } else {
                            None
                        };
                        column_types.push(column_type);
                        column_names.push(name);
                        column_conversions.push(conversion);
                    },
                }
            }
            i = i + 1;
        }
        proof {
            assert(all.take(lines@.len() as int) =~= all);
        }
        Ok(ColumnTypes { column_types, column_names, column_conversions })
    }

    /// Whether every column has a name. A schema without columns has.
    pub fn has_names(&self) -> (named: bool)
        ensures
            named == forall|i: int|
                0 <= i < self.column_names@.len() ==> self.column_names@[i]@.len() > 0,
    {
        let mut i: usize = 0;
        while i < self.column_names.len()
            invariant
                i <= self.column_names@.len(),
                forall|j: int| 0 <= j < i ==> self.column_names@[j]@.len() > 0,
            decreases self.column_names.len() - i,
        {
            if self.column_names[i].as_str().is_empty() {
                return false;
            }
            i = i + 1;
        }
        true
    }
}

/// A description whose start is rejected is rejected with the same message.
pub proof fn lemma_schema_rejected(lines: Seq<Seq<char>>, k: int)
    requires
        0 <= k <= lines.len(),
        schema_parsed(lines.take(k)) is Err,
    ensures
        schema_parsed(lines) == schema_parsed(lines.take(k)),
    decreases lines.len() - k,
{
    if k < lines.len() {
        assert(lines.take(k + 1).drop_last() =~= lines.take(k));
        lemma_schema_rejected(lines, k + 1);
    } else {
        assert(lines.take(k) =~= lines);
    }
}

} // verus!
