//! The header that follows the signature: a length, a version, a filler
//! byte, the number of columns and the width of each column.
use vstd::prelude::*;
use crate::endian::le_value;
use crate::reader::{read_u16, read_u32, read_u8, ByteReader, DecodeError};

verus! {

/// The width that marks a column whose values each state their own length.
pub const VARIABLE_WIDTH: u32 = 0xFFFF_FFFF;

/// What the header says of the columns of a file.
#[derive(Debug)]
pub struct ColumnDefinitions {
    /// The header's length as the file states it; nothing depends on it.
    pub header_length: u32,
    pub version: u16,
    pub number_of_columns: u16,
    /// The width in bytes of each column, `VARIABLE_WIDTH` for a column of
    /// variable width.
    pub column_widths: Vec<u32>,
}

/// The number of columns that a header states, in its bytes 7 and 8.
pub open spec fn header_columns(stream: Seq<u8>) -> nat {
    le_value(stream.subrange(7, 9))
}

/// How many bytes a header takes: nine, and four for each column.
pub open spec fn header_size(stream: Seq<u8>) -> nat {
    9 + 4 * header_columns(stream)
}

/// Whether `stream` holds a whole header.
pub open spec fn header_complete(stream: Seq<u8>) -> bool {
    stream.len() >= 9 && stream.len() >= header_size(stream)
}

/// The width that a header states for column `i`.
pub open spec fn header_width(stream: Seq<u8>, i: int) -> nat {
    le_value(stream.subrange(9 + 4 * i, 13 + 4 * i))
}

/// The widths that a header states, in the order of the columns.
pub open spec fn header_widths(stream: Seq<u8>) -> Seq<u32> {
    Seq::new(header_columns(stream), |i: int| header_width(stream, i) as u32)
}

impl ColumnDefinitions {
    /// Reads the header: little-endian, a 32-bit length, a 16-bit version, a
    /// byte that is skipped, a 16-bit number of columns and a 32-bit width
    /// for each column. Where the bytes end before the header does, the read
    /// fails and the reader is left at the end.
    pub fn from_reader(reader: &mut ByteReader) -> (r: Result<ColumnDefinitions, DecodeError>)
        ensures
            match r {
                Ok(found) => {
                    &&& header_complete(old(reader)@)
                    &&& found.header_length == le_value(old(reader)@.subrange(0, 4))
                    &&& found.version == le_value(old(reader)@.subrange(4, 6))
                    &&& found.number_of_columns == header_columns(old(reader)@)
                    &&& found.column_widths@ == header_widths(old(reader)@)
                    &&& final(reader)@ == old(reader)@.skip(header_size(old(reader)@) as int)
                },
                Err(e) => {
                    &&& e == DecodeError::UnexpectedEof
                    &&& !header_complete(old(reader)@)
                    &&& final(reader)@ == Seq::<u8>::empty()
                },
            },
    {
        let ghost stream = reader@;
        let header_length: u32 = read_u32(reader)?;
        let ghost after_length = reader@;
        let version: u16 = read_u16(reader)?;
        proof {
            assert(after_length.take(2) =~= stream.subrange(4, 6));
        }
        let _filler: u8 = read_u8(reader)?;
        let ghost after_filler = reader@;
        let number_of_columns: u16 = read_u16(reader)?;
        proof {
            assert(after_filler.take(2) =~= stream.subrange(7, 9));
        }
        let mut column_widths: Vec<u32> = Vec::new();
        let mut i: u16 = 0;
        while i < number_of_columns
            invariant
                i <= number_of_columns,
                stream == old(reader)@,
                number_of_columns == header_columns(stream),
                stream.len() >= 9 + 4 * i,
                reader@ == stream.skip(9 + 4 * i),
                column_widths@ == header_widths(stream).take(i as int),
            ensures
                i == number_of_columns,
                stream.len() >= 9 + 4 * i,
                reader@ == stream.skip(9 + 4 * i),
                column_widths@ == header_widths(stream).take(i as int),
            decreases number_of_columns - i,
        {
            let ghost before = reader@;
            match read_u32(reader) {
                Ok(width) => {
                    proof {
                        assert(before.take(4) =~= stream.subrange(9 + 4 * i, 13 + 4 * i));
                    }
                    column_widths.push(width);
                },
                Err(e) => {
                    return Err(e);
                },
            }
            i = i + 1;
        }
        Ok(ColumnDefinitions { header_length, version, number_of_columns, column_widths })
    }
}

} // verus!
