//! The name of the file that a run writes: the one that was asked for, or
//! one made from the input's name, with a number before the extensions
//! where a run writes more than one file.
use vstd::prelude::*;
use crate::args::Args;
use crate::text::{
    chars_of, decimal, push_char, push_chars, push_decimal, same_text, split, split_chars,
    text_view, texts,
};

verus! {

/// Why a run has no file to write to.
#[derive(Debug, Clone, Copy, PartialEq, Eq, Structural)]
pub enum OutputNameError {
    /// The input's path has no final component to make a name from.
    NoFileName,
    /// The file to write is the input.
    OverwritesInput,
    /// The file to write is the description of the columns.
    OverwritesTypes,
}

impl OutputNameError {
    /// What the error says.
    pub open spec fn message(self) -> Seq<char> {
        match self {
            OutputNameError::NoFileName => "bad output file name"@,
            OutputNameError::OverwritesInput => "can't overwrite input file"@,
            OutputNameError::OverwritesTypes => "can't overwrite types file"@,
        }
    }

    /// What the error says.
    pub fn to_string(&self) -> (text: String)
        ensures
            text@ == self.message(),
    {
        let mut text = String::new();
        match self {
            OutputNameError::NoFileName => text.append("bad output file name"),
            OutputNameError::OverwritesInput => text.append("can't overwrite input file"),
            OutputNameError::OverwritesTypes => text.append("can't overwrite types file"),
        }
        text
    }
}

/// The extension that tells the format of the result.
pub open spec fn format_extension(is_json: bool, is_json_lines: bool) -> Seq<char> {
    if is_json {
        "json"@
    } else if is_json_lines {
        "jsonl"@
    } else {
        "csv"@
    }
}

/// What a file's number adds to its name: nothing for the only file, else a
/// hyphen and the number.
pub open spec fn iteration_tag(iteration: Option<usize>) -> Seq<char> {
    match iteration {
        None => Seq::empty(),
        Some(i) => seq!['-'] + decimal(i as nat),
    }
}

/// The name that is made from the input's file name: the file name, the
/// file's number, the extension of the format, and `.gz` where the result is
/// compressed.
pub open spec fn derived_name(
    file_name: Seq<char>,
    is_json: bool,
    is_json_lines: bool,
    is_gzip: bool,
    iteration: Option<usize>,
) -> Seq<char> {
    file_name + iteration_tag(iteration) + seq!['.'] + format_extension(is_json, is_json_lines)
        + if is_gzip {
        seq!['.', 'g', 'z']
    } else {
        Seq::empty()
    }
}

/// The fields, with `sep` between each two of them.
pub open spec fn joined(fields: Seq<Seq<char>>, sep: char) -> Seq<char>
    decreases fields.len(),
{
    if fields.len() == 0 {
        Seq::empty()
    } else if fields.len() == 1 {
        fields[0]
    } else {
        joined(fields.drop_last(), sep) + seq![sep] + fields.last()
    }
}

/// Whether a part of a file name is an extension of one of the formats.
pub open spec fn is_format_extension(part: Seq<char>) -> bool {
    part == "csv"@ || part == "json"@ || part == "jsonl"@
}

/// How many parts at the end of a name's parts are its extensions: the last
/// one, and the one before it where that is the extension of a format and
/// not the first part.
pub open spec fn extension_parts(parts: Seq<Seq<char>>) -> int {
    if parts.len() > 2 && is_format_extension(parts[parts.len() - 2]) {
        2
    } else {
        1
    }
}

/// A name that was asked for, with a file's number: the number follows the
/// name where the name has no dot, and else stands before the extensions.
pub open spec fn numbered_name(name: Seq<char>, number: nat) -> Seq<char> {
    let parts = split(name, '.');
    if parts.len() == 1 {
        name + seq!['-'] + decimal(number)
    } else {
        let kept = parts.len() - extension_parts(parts);
        joined(parts.take(kept), '.') + seq!['-'] + decimal(number) + seq!['.'] + joined(
            parts.skip(kept),
            '.',
        )
    }
}

/// The name of the file to write where one was asked for.
pub open spec fn requested_name(name: Seq<char>, iteration: Option<usize>) -> Seq<char> {
    match iteration {
        None => name,
        Some(i) => numbered_name(name, i as nat),
    }
}

/// The view of a name or the reason why there is none.
pub open spec fn name_result(r: Result<String, OutputNameError>) -> Result<
    Seq<char>,
    OutputNameError,
> {
    match r {
        Ok(name) => Ok(name@),
        Err(e) => Err(e),
    }
}

/// The name that is made from the final component of the input's path, if
/// the path has one.
pub open spec fn derived_from(
    component: Option<Seq<char>>,
    is_json: bool,
    is_json_lines: bool,
    is_gzip: bool,
    iteration: Option<usize>,
) -> Result<Seq<char>, OutputNameError> {
    match component {
        Some(file_name) => Ok(derived_name(file_name, is_json, is_json_lines, is_gzip, iteration)),
        None => Err(OutputNameError::NoFileName),
    }
}

/// The final component of a path, if it has one. Wraps `Path::file_name` of
/// the standard library. What separates the components of a path depends on
/// the platform, so the contract says nothing of the result.
#[verifier::external_body]
pub(crate) fn file_name_of(path: &str) -> (r: Option<String>) {
    match std::path::Path::new(path).file_name() {
        Some(name) => match name.to_str() {
            Some(text) => Some(text.to_string()),
            None => None,
        },
        None => None,
    }
}

/// Appends the fields `from..to`, with `sep` between each two of them.
pub(crate) fn push_joined(
    out: &mut String,
    fields: &Vec<Vec<char>>,
    from: usize,
    to: usize,
    sep: char,
)
    requires
        from <= to <= fields@.len(),
    ensures
        final(out)@ == old(out)@ + joined(texts(fields@).subrange(from as int, to as int), sep),
{
    let mut i: usize = from;
    while i < to
        invariant
            from <= i <= to <= fields@.len(),
            out@ == old(out)@ + joined(texts(fields@).subrange(from as int, i as int), sep),
        decreases to - i,
    {
        if i > from {
            push_char(out, sep);
        }
        push_chars(out, &fields[i]);
        proof {
            let next = texts(fields@).subrange(from as int, i + 1);
            assert(next.drop_last() =~= texts(fields@).subrange(from as int, i as int));
        }
        i = i + 1;
    }
}

/// Whether a part of a file name is an extension of one of the formats.
pub fn part_is_format_extension(part: &Vec<char>) -> (is: bool)
    ensures
        is == is_format_extension(part@),
{
    let text = crate::text::text_of(part);
    same_text(text.as_str(), "csv") || same_text(text.as_str(), "json") || same_text(
        text.as_str(),
        "jsonl",
    )
}

/// The name that was asked for, with a file's number.
pub fn numbered(name: &str, number: usize) -> (r: String)
    ensures
        r@ == numbered_name(name@, number as nat),
{
    let all = chars_of(name);
    let parts = split_chars(&all, '.');
    let count: usize = parts.len();
    let mut out = String::new();
    if count == 1 {
        push_chars(&mut out, &all);
        push_char(&mut out, '-');
        push_decimal(&mut out, number as u64);
    } else {
        let extensions: usize = if count > 2 && part_is_format_extension(&parts[count - 2]) {
            2
        } else {
            1
        };
        let kept: usize = count - extensions;
        push_joined(&mut out, &parts, 0, kept, '.');
        push_char(&mut out, '-');
        push_decimal(&mut out, number as u64);
        push_char(&mut out, '.');
        push_joined(&mut out, &parts, kept, count, '.');
        proof {
            let fields = texts(parts@);
            assert(fields.subrange(0, kept as int) =~= fields.take(kept as int));
            assert(fields.subrange(kept as int, count as int) =~= fields.skip(kept as int));
        }
    }
    out
}

/// The name that is made from the final component of the input's path, if
/// the path has one.
pub fn derive_name(
    component: Option<String>,
    is_json: bool,
    is_json_lines: bool,
    is_gzip: bool,
    iteration: Option<usize>,
) -> (r: Result<String, OutputNameError>)
    ensures
        name_result(r) == derived_from(
            text_view(component),
            is_json,
            is_json_lines,
            is_gzip,
            iteration,
        ),
{
    match component {
        None => Err(OutputNameError::NoFileName),
        Some(file_name) => {
            let mut out = String::new();
            out.append(file_name.as_str());
            match iteration {
                None => {},
                Some(i) => {
                    push_char(&mut out, '-');
                    push_decimal(&mut out, i as u64);
                },
            }
            push_char(&mut out, '.');
            if is_json {
                out.append("json");
            } else if is_json_lines {
                out.append("jsonl");
            } else {
                out.append("csv");
            }
            if is_gzip {
                push_char(&mut out, '.');
                push_char(&mut out, 'g');
                push_char(&mut out, 'z');
            }
            assert(out@ =~= derived_name(file_name@, is_json, is_json_lines, is_gzip, iteration));
            Ok(out)
        },
    }
}

/// The name of the file to write. Where a name was asked for, it is that
/// name, with the file's number before its extensions where the file has a
/// number. Where none was asked for, the name is made from the final
/// component of the input's path, which the platform tells; an input
/// without one has no name to give.
pub fn generate_output_file_name(args: &Args, iteration: Option<usize>) -> (r: Result<
    String,
    OutputNameError,
>)
    ensures
        match args.output {
            Some(name) => name_result(r) == Ok::<Seq<char>, OutputNameError>(
                requested_name(name@, iteration),
            ),
            None => exists|component: Option<Seq<char>>|
                name_result(r) == #[trigger] derived_from(
                    component,
                    args.is_json,
                    args.is_json_lines,
                    args.is_gzip,
                    iteration,
                ),
        },
{
    match &args.output {
        None => {
            let component = file_name_of(args.input.as_str());
            let r = derive_name(
                component,
                args.is_json,
                args.is_json_lines,
                args.is_gzip,
                iteration,
            );
            r
        },
        Some(name) => match iteration {
            None => Ok(name.clone()),
            Some(i) => Ok(numbered(name.as_str(), i)),
        },
    }
}

/// What the check of a name against the files that a run reads gives.
pub open spec fn name_checked(input: Seq<char>, types: Seq<char>, file_name: Seq<char>) -> Result<
    (),
    OutputNameError,
> {
    if file_name == input {
        Err(OutputNameError::OverwritesInput)
    } else if file_name == types {
        Err(OutputNameError::OverwritesTypes)
    } else {
        Ok(())
    }
}

/// Accepts the name of the file to write unless it is the name of the input
/// or of the description of the columns.
pub fn validate_output_file_name_ok(args: &Args, file_name: &String) -> (r: Result<
    (),
    OutputNameError,
>)
    ensures
        r == name_checked(args.input@, args.types@, file_name@),
{
    if same_text(file_name.as_str(), args.input.as_str()) {
        Err(OutputNameError::OverwritesInput)
    } else if same_text(file_name.as_str(), args.types.as_str()) {
        Err(OutputNameError::OverwritesTypes)
    } else {
        Ok(())
    }
}

/// A name, once it is known not to be one of the files that the run reads;
/// a name that is one of them is refused, and where there is no name the
/// reason stays.
pub open spec fn checked_name(
    input: Seq<char>,
    types: Seq<char>,
    name: Result<Seq<char>, OutputNameError>,
) -> Result<Seq<char>, OutputNameError> {
    match name {
        Ok(file_name) => match name_checked(input, types, file_name) {
            Ok(_) => Ok(file_name),
            Err(e) => Err(e),
        },
        Err(e) => Err(e),
    }
}

/// The name of the file to write, as `generate_output_file_name` gives it,
/// once it is known not to be one of the files that the run reads.
pub fn checked_output_file_name(args: &Args, iteration: Option<usize>) -> (r: Result<
    String,
    OutputNameError,
>)
    ensures
        match args.output {
            Some(name) => name_result(r) == checked_name(
                args.input@,
                args.types@,
                Ok(requested_name(name@, iteration)),
            ),
            None => exists|component: Option<Seq<char>>|
                name_result(r) == checked_name(
                    args.input@,
                    args.types@,
                    #[trigger] derived_from(
                        component,
                        args.is_json,
                        args.is_json_lines,
                        args.is_gzip,
                        iteration,
                    ),
                ),
        },
{
    match generate_output_file_name(args, iteration) {
        Ok(name) => match validate_output_file_name_ok(args, &name) {
            Ok(()) => Ok(name),
            Err(e) => Err(e),
        },
        Err(e) => Err(e),
    }
}

} // verus!
