//! Decodes Vertica's native binary files: the signature and the header of a
//! file, its rows, and the text and the typed value that each column of a row
//! stands for under the type that a schema gives it.
pub mod args;
pub mod calendar;
pub mod column_conversion;
pub mod column_definitions;
pub mod column_type;
pub mod column_types;
pub mod endian;
pub mod file_signature;
pub mod output_name;
pub mod plan;
pub mod reader;
pub mod text;
pub mod vertica_native_file;

pub use crate::args::Args;
pub use crate::output_name::{
    checked_output_file_name, generate_output_file_name, validate_output_file_name_ok,
};
pub use crate::reader::{read_u16, read_u32, read_u8, read_variable};
