//! The rows of a file: each starts with a 32-bit length, then holds one bit
//! for each column that says whether the column is null, then the bytes of
//! the columns that are not.
use vstd::prelude::*;
use crate::column_conversion::ColumnConversion;
use crate::column_definitions::{
    header_columns, header_complete, header_size, header_widths, ColumnDefinitions, VARIABLE_WIDTH,
};
use crate::column_type::{
    formatted, raw, typed, ColumnType, FormatError, Formatted, FormattedView, JsonValue, JsonView,
};
use crate::column_types::ColumnTypes;
use crate::endian::{
    le_bytes, le_value, lemma_le_bytes_len, lemma_le_value_of_bytes, lemma_radix_values,
};
use crate::file_signature::{signature, FileSignature};
use crate::reader::{bytes_read, number_read, read_u32, read_variable, ByteReader, DecodeError};

verus! {

/// One row of a file.
#[derive(Debug)]
pub struct Row {
    /// For each column, whether it is null in this row.
    pub null_values: Vec<bool>,
    /// For each column its bytes, `None` where it is null.
    pub data: Vec<Option<Vec<u8>>>,
}

/// The mathematical value of a row.
pub struct RowView {
    pub null_values: Seq<bool>,
    pub data: Seq<Option<Seq<u8>>>,
}

/// The views of the cells of a row.
pub open spec fn cells(data: Seq<Option<Vec<u8>>>) -> Seq<Option<Seq<u8>>> {
    Seq::new(data.len(), |i: int| raw(data[i]))
}

impl View for Row {
    type V = RowView;

    open spec fn view(&self) -> RowView {
        RowView { null_values: self.null_values@, data: cells(self.data@) }
    }
}

/// How many bytes hold one bit for each of `columns` columns.
pub open spec fn bitfield_length(columns: nat) -> nat {
    (columns + 7) / 8
}

/// Whether the bit for column `i` is set: the bits of each byte count from
/// the most significant one.
pub open spec fn null_bit(bitfield: Seq<u8>, i: int) -> bool {
    bitfield[i / 8] & (1u8 << ((7 - i % 8) as u8)) != 0
}

/// The bits for `columns` columns; bits beyond them do not count.
pub open spec fn null_bits(bitfield: Seq<u8>, columns: nat) -> Seq<bool> {
    Seq::new(columns, |i: int| null_bit(bitfield, i))
}

/// What reading the bits for `columns` columns gives: the bits and the bytes
/// that are left after the bytes that hold them; `None` where the bytes do
/// not reach.
pub open spec fn bits_read(bytes: Seq<u8>, columns: nat) -> Option<(Seq<bool>, Seq<u8>)> {
    match bytes_read(bytes, bitfield_length(columns)) {
        Some((bitfield, rest)) => Some((null_bits(bitfield, columns), rest)),
        None => None,
    }
}

/// What one column takes from the bytes of a row: its cell and the bytes
/// that are left. A null column takes nothing; a column of variable width
/// takes a 32-bit length and as many bytes; any other takes as many bytes as
/// it is wide. `None` where the bytes do not reach.
pub open spec fn column_decoded(width: u32, null: bool, bytes: Seq<u8>) -> Option<
    (Option<Seq<u8>>, Seq<u8>),
> {
    if null {
        Some((None, bytes))
    } else if width == VARIABLE_WIDTH {
        match number_read(bytes, 4) {
            None => None,
            Some((length, rest)) => match bytes_read(rest, length) {
                None => None,
                Some((cell, left)) => Some((Some(cell), left)),
            },
        }
    } else {
        match bytes_read(bytes, width as nat) {
            None => None,
            Some((cell, left)) => Some((Some(cell), left)),
        }
    }
}

/// What the first `count` columns take from the bytes of a row: their cells
/// and the bytes that are left.
pub open spec fn columns_decoded(
    widths: Seq<u32>,
    nulls: Seq<bool>,
    bytes: Seq<u8>,
    count: nat,
) -> Option<(Seq<Option<Seq<u8>>>, Seq<u8>)>
    decreases count,
{
    if count == 0 {
        Some((Seq::empty(), bytes))
    } else {
        match columns_decoded(widths, nulls, bytes, (count - 1) as nat) {
            None => None,
            Some((cells, rest)) => match column_decoded(
                widths[count - 1],
                nulls[count - 1],
                rest,
            ) {
                None => None,
                Some((cell, left)) => Some((cells.push(cell), left)),
            },
        }
    }
}

/// What a row takes from the bytes that follow its length: the row and the
/// bytes that are left; `None` where the bytes do not reach.
pub open spec fn row_decoded(widths: Seq<u32>, bytes: Seq<u8>) -> Option<(RowView, Seq<u8>)> {
    match bits_read(bytes, widths.len()) {
        None => None,
        Some((nulls, rest)) => match columns_decoded(widths, nulls, rest, widths.len()) {
            None => None,
            Some((data, left)) => Some((RowView { null_values: nulls, data }, left)),
        },
    }
}

/// What is read where a row is expected: its length, which must not be zero,
/// and the row. `None` where the stream ends: its bytes do not reach, or the
/// length is zero.
pub open spec fn next_row(widths: Seq<u32>, bytes: Seq<u8>) -> Option<(RowView, Seq<u8>)> {
    match number_read(bytes, 4) {
        None => None,
        Some((length, rest)) => if length == 0 {
            None
        } else {
            row_decoded(widths, rest)
        },
    }
}

/// The rows that a stream of bytes holds up to its end.
pub open spec fn rows_decoded(widths: Seq<u32>, bytes: Seq<u8>) -> Seq<RowView>
    decreases bytes.len(),
{
    match next_row(widths, bytes) {
        None => Seq::empty(),
        Some((row, rest)) => {
            if rest.len() < bytes.len() {
                seq![row] + rows_decoded(widths, rest)
            } else {
                Seq::empty()
            }
        },
    }
}

/// Decoding columns never gives bytes back.
pub proof fn lemma_columns_consume(widths: Seq<u32>, nulls: Seq<bool>, bytes: Seq<u8>, count: nat)
    ensures
        columns_decoded(widths, nulls, bytes, count) matches Some((cells, rest)) ==> cells.len()
            == count && rest.len() <= bytes.len(),
    decreases count,
{
    if count > 0 {
        lemma_columns_consume(widths, nulls, bytes, (count - 1) as nat);
    }
}

/// Where the bytes do not reach for the first columns, they do not reach for
/// more of them.
pub proof fn lemma_columns_fail(
    widths: Seq<u32>,
    nulls: Seq<bool>,
    bytes: Seq<u8>,
    count: nat,
    more: nat,
)
    requires
        count <= more,
        columns_decoded(widths, nulls, bytes, count) is None,
    ensures
        columns_decoded(widths, nulls, bytes, more) is None,
    decreases more,
{
    if count < more {
        lemma_columns_fail(widths, nulls, bytes, count, (more - 1) as nat);
    }
}

/// A row takes its length and more from the stream: what is left is shorter.
pub proof fn lemma_row_consumes(widths: Seq<u32>, bytes: Seq<u8>)
    ensures
        next_row(widths, bytes) matches Some((row, rest)) ==> rest.len() + 4 <= bytes.len()
            && row.null_values.len() == widths.len() && row.data.len() == widths.len(),
{
    match number_read(bytes, 4) {
        None => {},
        Some((length, after)) => {
            match bytes_read(after, bitfield_length(widths.len())) {
                None => {},
                Some((bitfield, rest)) => {
                    lemma_columns_consume(
                        widths,
                        null_bits(bitfield, widths.len()),
                        rest,
                        widths.len(),
                    );
                },
            }
        },
    }
}

impl Row {
    /// Reads the bits that say which columns are null, one for each width in
    /// `column_widths`. The bytes that hold them are read whole.
    pub fn read_bitfield(reader: &mut ByteReader, column_widths: &Vec<u32>) -> (r: Result<
        Vec<bool>,
        DecodeError,
    >)
        ensures
            match r {
                Ok(nulls) => bits_read(old(reader)@, column_widths@.len()) == Some(
                    (nulls@, final(reader)@),
                ),
                Err(e) => {
                    &&& e == DecodeError::UnexpectedEof
                    &&& bits_read(old(reader)@, column_widths@.len()) is None
                    &&& final(reader)@ == Seq::<u8>::empty()
                },
            },
    {
        let columns: usize = column_widths.len();
        let bitfield_length: usize = columns / 8 + if columns % 8 == 0 {
            0
        } else {
            1
        };
        let bitfield = read_variable(reader, bitfield_length)?;
        let mut null_values: Vec<bool> = Vec::new();
        let mut i: usize = 0;
        while i < columns
            invariant
                i <= columns,
                bitfield@.len() == bitfield_length,
                bitfield_length == (columns + 7) / 8,
                null_values@ == null_bits(bitfield@, columns as nat).take(i as int),
            decreases columns - i,
        {
            let shift: u8 = (7 - i % 8) as u8;
            let null: bool = bitfield[i / 8] & (1u8 << shift) != 0;
            null_values.push(null);
            i = i + 1;
        }
        Ok(null_values)
    }

    /// Reads a row, the bytes that follow its length: the bits for the nulls,
    /// then each column that is not null. Where the bytes do not reach, the
    /// read fails and the reader is left at the end.
    pub fn from_reader(reader: &mut ByteReader, column_widths: &Vec<u32>) -> (r: Result<
        Row,
        DecodeError,
    >)
        ensures
            match r {
                Ok(row) => row_decoded(column_widths@, old(reader)@) == Some(
                    (row@, final(reader)@),
                ),
                Err(e) => {
                    &&& e == DecodeError::UnexpectedEof
                    &&& row_decoded(column_widths@, old(reader)@) is None
                    &&& final(reader)@ == Seq::<u8>::empty()
                },
            },
    {
        let ghost stream = reader@;
        let ghost columns = column_widths@.len();
        let null_values = Row::read_bitfield(reader, column_widths)?;
        let ghost start = reader@;
        let mut data: Vec<Option<Vec<u8>>> = Vec::new();
        let mut index: usize = 0;
        while index < column_widths.len()
            invariant
                index <= column_widths@.len(),
                stream == old(reader)@,
                columns == column_widths@.len(),
                bits_read(stream, columns) == Some((null_values@, start)),
                columns_decoded(column_widths@, null_values@, start, index as nat) == Some(
                    (cells(data@), reader@),
                ),
            decreases column_widths.len() - index,
        {
            if null_values[index] {
                data.push(None);
            } else {
                let width: u32 = column_widths[index];
                let column_width: u32 = if width == VARIABLE_WIDTH {
                    match read_u32(reader) {
                        Ok(length) => length,
                        Err(e) => {
                            proof {
                                lemma_columns_fail(
                                    column_widths@,
                                    null_values@,
                                    start,
                                    (index + 1) as nat,
                                    columns,
                                );
                            }
                            return Err(e);
                        },
                    }
                } else {
                    width
                };
                match read_variable(reader, column_width as usize) {
                    Ok(column) => {
                        data.push(Some(column));
                    },
                    Err(e) => {
                        proof {
                            lemma_columns_fail(
                                column_widths@,
                                null_values@,
                                start,
                                (index + 1) as nat,
                                columns,
                            );
                        }
                        return Err(e);
                    },
                }
            }
            index = index + 1;
        }
        Ok(Row { null_values, data })
    }
}

/// A file of the format, opened: its header, and the rows that are yet to
/// be read. Its view is those rows, in their order.
pub struct VerticaNativeFile {
    /// The signature as it was read. Nothing depends on it any more.
    _signature: FileSignature,
    /// What the header says of the columns.
    definitions: ColumnDefinitions,
    /// The bytes of the file that are yet to be read.
    file: ByteReader,
    /// Whether the stream of rows has ended. Once it has, no row follows.
    ended: bool,
}

impl View for VerticaNativeFile {
    type V = Seq<RowView>;

    closed spec fn view(&self) -> Seq<RowView> {
        if self.ended {
            Seq::empty()
        } else {
            rows_decoded(self.definitions.column_widths@, self.file@)
        }
    }
}

/// What opening a file makes of its bytes: the bytes that follow the
/// signature, where the file starts with the signature and a whole header
/// follows; else the reason why the file cannot be opened.
pub open spec fn opened(bytes: Seq<u8>) -> Result<Seq<u8>, DecodeError> {
    match bytes_read(bytes, 11) {
        None => Err(DecodeError::UnexpectedEof),
        Some((found, header)) => if found != signature() {
            Err(DecodeError::InvalidSignature)
        } else if !header_complete(header) {
            Err(DecodeError::UnexpectedEof)
        } else {
            Ok(header)
        },
    }
}

/// Whether `r` is what opening a file of these bytes gives: the header as
/// the bytes state it and the rows that the bytes after the header hold, or
/// the reason why the file cannot be opened.
pub open spec fn opens(bytes: Seq<u8>, r: Result<VerticaNativeFile, DecodeError>) -> bool {
    match r {
        Ok(file) => {
            &&& opened(bytes) matches Ok(header)
            &&& file.header().header_length == le_value(header.subrange(0, 4))
            &&& file.header().version == le_value(header.subrange(4, 6))
            &&& file.header().number_of_columns == header_columns(header)
            &&& file.header().column_widths@ == header_widths(header)
            &&& file@ == rows_decoded(
                header_widths(header),
                header.skip(header_size(header) as int),
            )
        },
        Err(e) => opened(bytes) == Err::<Seq<u8>, DecodeError>(e),
    }
}

impl VerticaNativeFile {
    /// Opens a file: reads its signature and its header. The rows are those
    /// that the bytes after the header hold, each as wide as the header says.
    pub fn from_reader(reader: ByteReader) -> (r: Result<VerticaNativeFile, DecodeError>)
        ensures
            opens(reader@, r),
    {
        let mut file = reader;
        let signature = FileSignature::from_reader(&mut file)?;
        let definitions = ColumnDefinitions::from_reader(&mut file)?;
        Ok(VerticaNativeFile { _signature: signature, definitions, file, ended: false })
    }

    /// What the header says of the columns.
    pub closed spec fn header(&self) -> ColumnDefinitions {
        self.definitions
    }

    /// What the header says of the columns.
    pub fn definitions(&self) -> (definitions: &ColumnDefinitions)
        ensures
            *definitions == self.header(),
    {
        &self.definitions
    }

    /// The next row, if there is one. The stream of rows ends where the bytes
    /// end before a row's length, where a row's length is zero, and where the
    /// bytes end within a row; once it has ended, no row follows.
    pub fn next(&mut self) -> (r: Option<Row>)
        ensures
            match r {
                Some(row) => {
                    &&& old(self)@.len() > 0
                    &&& row@ == old(self)@[0]
                    &&& final(self)@ == old(self)@.skip(1)
                },
                None => old(self)@.len() == 0 && final(self)@.len() == 0,
            },
            final(self).header() == old(self).header(),
    {
        if self.ended {
            return None;
        }
        let ghost stream = self.file@;
        let ghost widths = self.definitions.column_widths@;
        let row_length: u32 = match read_u32(&mut self.file) {
            Ok(length) => length,
            Err(_) => {
                self.ended = true;
                return None;
            },
        };
        if row_length == 0 {
            self.ended = true;
            return None;
        }
        match Row::from_reader(&mut self.file, &self.definitions.column_widths) {
            Ok(row) => {
                proof {
                    lemma_row_consumes(widths, stream);
                }
                Some(row)
            },
            Err(_) => {
                self.ended = true;
                None
            },
        }
    }

    /// All the rows that are yet to be read, in their order.
    pub fn rows(&mut self) -> (rows: Vec<Row>)
        ensures
            row_views(rows@) == old(self)@,
            final(self)@.len() == 0,
            final(self).header() == old(self).header(),
    {
        let mut rows: Vec<Row> = Vec::new();
        loop
            invariant
                row_views(rows@) + self@ == old(self)@,
                self.header() == old(self).header(),
            ensures
                row_views(rows@) == old(self)@,
                self@.len() == 0,
                self.header() == old(self).header(),
            decreases self@.len(),
        {
            match self.next() {
                Some(row) => {
                    rows.push(row);
                },
                None => {
                    break ;
                },
            }
        }
        rows
    }
}

/// The views of a list of rows.
pub open spec fn row_views(rows: Seq<Row>) -> Seq<RowView> {
    Seq::new(rows.len(), |i: int| rows[i]@)
}

/// A column that is null takes no byte from the row.
pub proof fn lemma_null_column_takes_nothing(width: u32, bytes: Seq<u8>)
    ensures
        column_decoded(width, true, bytes) == Some((None::<Seq<u8>>, bytes)),
{
}

/// A length of zero where a row is expected ends the stream of rows there,
/// whatever follows.
pub proof fn lemma_zero_length_ends_stream(widths: Seq<u32>, bytes: Seq<u8>)
    requires
        number_read(bytes, 4) matches Some((length, rest)) && length == 0,
    ensures
        rows_decoded(widths, bytes) == Seq::<RowView>::empty(),
{
}

/// Where the bytes end before a row is complete, the stream of rows ends.
pub proof fn lemma_short_stream_ends(widths: Seq<u32>, bytes: Seq<u8>)
    requires
        next_row(widths, bytes) is None,
    ensures
        rows_decoded(widths, bytes) == Seq::<RowView>::empty(),
{
}

/// Opening the same bytes twice gives the same outcome: the same header and
/// the same rows, or the same failure.
pub proof fn lemma_same_bytes_open_alike(
    bytes: Seq<u8>,
    first: Result<VerticaNativeFile, DecodeError>,
    second: Result<VerticaNativeFile, DecodeError>,
)
    requires
        opens(bytes, first),
        opens(bytes, second),
    ensures
        match first {
            Ok(file) => {
                &&& second matches Ok(other)
                &&& other@ == file@
                &&& other.header().header_length == file.header().header_length
                &&& other.header().version == file.header().version
                &&& other.header().number_of_columns == file.header().number_of_columns
                &&& other.header().column_widths@ == file.header().column_widths@
            },
            Err(e) => second == Err::<VerticaNativeFile, DecodeError>(e),
        },
{
}

/// The bytes that a column takes in a row: none for a null; for a column of
/// variable width the length of its bytes in 32 bits and the bytes; else
/// the bytes.
pub open spec fn column_encoded(width: u32, cell: Option<Seq<u8>>) -> Seq<u8> {
    match cell {
        None => Seq::empty(),
        Some(bytes) => if width == VARIABLE_WIDTH {
            le_bytes(bytes.len(), 4) + bytes
        } else {
            bytes
        },
    }
}

/// The bytes that the first `count` columns of a row take.
pub open spec fn columns_encoded(
    widths: Seq<u32>,
    data: Seq<Option<Seq<u8>>>,
    count: nat,
) -> Seq<u8>
    decreases count,
{
    if count == 0 {
        Seq::empty()
    } else {
        columns_encoded(widths, data, (count - 1) as nat) + column_encoded(
            widths[count - 1],
            data[count - 1],
        )
    }
}

/// Whether a cell agrees with its bit and with the width of its column.
pub open spec fn cell_fits(width: u32, null: bool, cell: Option<Seq<u8>>) -> bool {
    match cell {
        None => null,
        Some(bytes) => !null && if width == VARIABLE_WIDTH {
            bytes.len() <= 0xFFFF_FFFF
        } else {
            bytes.len() == width
        },
    }
}

/// A row as a file holds it: the length that is written before it, the
/// bytes that hold the bits for the nulls, and the row.
pub struct WrittenRow {
    pub length: nat,
    pub bitfield: Seq<u8>,
    pub row: RowView,
}

/// Whether a written row is well formed for columns of these widths: its
/// length is not zero and fits in 32 bits, its bits are those of its nulls,
/// and each cell agrees with its bit and its column's width.
pub open spec fn well_formed(widths: Seq<u32>, written: WrittenRow) -> bool {
    &&& 0 < written.length <= 0xFFFF_FFFF
    &&& written.bitfield.len() == bitfield_length(widths.len())
    &&& written.row.null_values == null_bits(written.bitfield, widths.len())
    &&& written.row.data.len() == widths.len()
    &&& forall|i: int|
        0 <= i < widths.len() ==> cell_fits(
            widths[i],
            #[trigger] written.row.null_values[i],
            written.row.data[i],
        )
}

/// The bytes of a written row.
pub open spec fn row_encoded(widths: Seq<u32>, written: WrittenRow) -> Seq<u8> {
    le_bytes(written.length, 4) + written.bitfield + columns_encoded(
        widths,
        written.row.data,
        widths.len(),
    )
}

/// The bytes of written rows, one after another.
pub open spec fn rows_encoded(widths: Seq<u32>, written: Seq<WrittenRow>) -> Seq<u8>
    decreases written.len(),
{
    if written.len() == 0 {
        Seq::empty()
    } else {
        row_encoded(widths, written[0]) + rows_encoded(widths, written.skip(1))
    }
}

/// The rows of written rows.
pub open spec fn rows_written(written: Seq<WrittenRow>) -> Seq<RowView> {
    Seq::new(written.len(), |i: int| written[i].row)
}

/// Reading a column from its bytes gives the cell and leaves what follows.
pub proof fn lemma_column_round_trip(width: u32, null: bool, cell: Option<Seq<u8>>, tail: Seq<u8>)
    requires
        cell_fits(width, null, cell),
    ensures
        column_decoded(width, null, column_encoded(width, cell) + tail) == Some((cell, tail)),
{
    let bytes = column_encoded(width, cell) + tail;
    match cell {
        None => {
        },
        Some(content) => {
            if width == VARIABLE_WIDTH {
                let prefix = le_bytes(content.len(), 4);
                lemma_le_bytes_len(content.len(), 4);
                lemma_radix_values();
                lemma_le_value_of_bytes(content.len(), 4);
                assert(bytes.take(4) =~= prefix);
            } else {
            }
        },
    }
}

/// Reading the first columns of a row from their bytes gives their cells and
/// leaves what follows.
pub proof fn lemma_columns_round_trip(
    widths: Seq<u32>,
    nulls: Seq<bool>,
    data: Seq<Option<Seq<u8>>>,
    count: nat,
    tail: Seq<u8>,
)
    requires
        count <= widths.len(),
        nulls.len() == widths.len(),
        data.len() == widths.len(),
        forall|i: int| 0 <= i < widths.len() ==> cell_fits(widths[i], #[trigger] nulls[i], data[i]),
    ensures
        columns_decoded(widths, nulls, columns_encoded(widths, data, count) + tail, count) == Some(
            (data.take(count as int), tail),
        ),
    decreases count,
{
    let bytes = columns_encoded(widths, data, count) + tail;
    if count == 0 {
    } else {
        let before = (count - 1) as nat;
        let last = column_encoded(widths[count - 1], data[count - 1]);
        assert(bytes =~= columns_encoded(widths, data, before) + (last + tail));
        lemma_columns_round_trip(widths, nulls, data, before, last + tail);
        lemma_column_round_trip(widths[count - 1], nulls[count - 1], data[count - 1], tail);
    }
}

/// Reading a well-formed row from its bytes gives the row and leaves what
/// follows.
pub proof fn lemma_row_round_trip(widths: Seq<u32>, written: WrittenRow, tail: Seq<u8>)
    requires
        well_formed(widths, written),
    ensures
        next_row(widths, row_encoded(widths, written) + tail) == Some((written.row, tail)),
{
    let columns = columns_encoded(widths, written.row.data, widths.len());
    let bytes = row_encoded(widths, written) + tail;
    let prefix = le_bytes(written.length, 4);
    lemma_le_bytes_len(written.length, 4);
    lemma_radix_values();
    lemma_le_value_of_bytes(written.length, 4);
    assert(bytes.take(4) =~= prefix);
    let after = bytes.skip(4);
    let size = bitfield_length(widths.len());
    assert(after.take(size as int) =~= written.bitfield);
    assert(after.skip(size as int) =~= columns + tail);
    lemma_columns_round_trip(
        widths,
        written.row.null_values,
        written.row.data,
        widths.len(),
        tail,
    );
    assert(written.row.data.take(widths.len() as int) =~= written.row.data);
}

/// A file that holds well-formed rows and then ends gives exactly these
/// rows, in their order: the stream ends where no row follows, be it that
/// the bytes end, that a length of zero follows, or that a row breaks off.
pub proof fn lemma_stream_gives_written_rows(
    widths: Seq<u32>,
    written: Seq<WrittenRow>,
    tail: Seq<u8>,
)
    requires
        forall|i: int| 0 <= i < written.len() ==> well_formed(widths, #[trigger] written[i]),
        next_row(widths, tail) is None,
    ensures
        rows_decoded(widths, rows_encoded(widths, written) + tail) == rows_written(written),
    decreases written.len(),
{
    let bytes = rows_encoded(widths, written) + tail;
    if written.len() == 0 {
    } else {
        let rest = rows_encoded(widths, written.skip(1)) + tail;
        assert(bytes =~= row_encoded(widths, written[0]) + rest);
        lemma_row_round_trip(widths, written[0], rest);
        lemma_stream_gives_written_rows(widths, written.skip(1), tail);
    }
}

/// The views of a record.
pub open spec fn record_view(record: Seq<Formatted>) -> Seq<FormattedView> {
    Seq::new(record.len(), |i: int| record[i]@)
}

/// The view of a record or the reason why there is none.
pub open spec fn record_result(r: Result<Vec<Formatted>, FormatError>) -> Result<
    Seq<FormattedView>,
    FormatError,
> {
    match r {
        Ok(record) => Ok(record_view(record@)),
        Err(e) => Err(e),
    }
}

/// What column `index` of a row shows under a schema.
pub open spec fn field_shown(
    types: Seq<ColumnType>,
    conversions: Seq<Option<ColumnConversion>>,
    index: int,
    cell: Option<Seq<u8>>,
    tz_offset: i8,
) -> Result<FormattedView, FormatError> {
    if index < types.len() && index < conversions.len() {
        formatted(types[index], cell, tz_offset, conversions[index])
    } else {
        Err(FormatError::MissingType)
    }
}

/// What the first `count` columns of a row show under a schema, in their
/// order; the first column that cannot be shown gives the reason.
pub open spec fn record_shown(
    types: Seq<ColumnType>,
    conversions: Seq<Option<ColumnConversion>>,
    data: Seq<Option<Seq<u8>>>,
    tz_offset: i8,
    count: nat,
) -> Result<Seq<FormattedView>, FormatError>
    decreases count,
{
    if count == 0 {
        Ok(Seq::empty())
    } else {
        match record_shown(types, conversions, data, tz_offset, (count - 1) as nat) {
            Err(e) => Err(e),
            Ok(front) => match field_shown(
                types,
                conversions,
                count - 1,
                data[count - 1],
                tz_offset,
            ) {
                Err(e) => Err(e),
                Ok(field) => Ok(front.push(field)),
            },
        }
    }
}

/// A named typed value, as a pair of views.
pub open spec fn member_view(member: (String, JsonValue)) -> (Seq<char>, JsonView) {
    (member.0@, member.1@)
}

/// The views of the members of an object.
pub open spec fn object_view(members: Seq<(String, JsonValue)>) -> Seq<(Seq<char>, JsonView)> {
    Seq::new(members.len(), |i: int| member_view(members[i]))
}

/// The view of an object or the reason why there is none.
pub open spec fn object_result(r: Result<Vec<(String, JsonValue)>, FormatError>) -> Result<
    Seq<(Seq<char>, JsonView)>,
    FormatError,
> {
    match r {
        Ok(members) => Ok(object_view(members@)),
        Err(e) => Err(e),
    }
}

/// The name and the typed value of column `index` of a row under a schema.
pub open spec fn member_typed(
    types: Seq<ColumnType>,
    names: Seq<String>,
    conversions: Seq<Option<ColumnConversion>>,
    index: int,
    cell: Option<Seq<u8>>,
    tz_offset: i8,
) -> Result<(Seq<char>, JsonView), FormatError> {
    if index < types.len() && index < names.len() && index < conversions.len() {
        match typed(types[index], cell, tz_offset, conversions[index]) {
            Ok(value) => Ok((names[index]@, value)),
            Err(e) => Err(e),
        }
    } else {
        Err(FormatError::MissingType)
    }
}

/// The names and the typed values of the first `count` columns of a row
/// under a schema, in their order; the first column that has no value gives
/// the reason.
pub open spec fn object_typed(
    types: Seq<ColumnType>,
    names: Seq<String>,
    conversions: Seq<Option<ColumnConversion>>,
    data: Seq<Option<Seq<u8>>>,
    tz_offset: i8,
    count: nat,
) -> Result<Seq<(Seq<char>, JsonView)>, FormatError>
    decreases count,
{
    if count == 0 {
        Ok(Seq::empty())
    } else {
        match object_typed(types, names, conversions, data, tz_offset, (count - 1) as nat) {
            Err(e) => Err(e),
            Ok(front) => match member_typed(
                types,
                names,
                conversions,
                count - 1,
                data[count - 1],
                tz_offset,
            ) {
                Err(e) => Err(e),
                Ok(member) => Ok(front.push(member)),
            },
        }
    }
}

/// A record that cannot be shown up to some column cannot be shown further.
pub proof fn lemma_record_fails(
    types: Seq<ColumnType>,
    conversions: Seq<Option<ColumnConversion>>,
    data: Seq<Option<Seq<u8>>>,
    tz_offset: i8,
    count: nat,
    more: nat,
)
    requires
        count <= more,
        record_shown(types, conversions, data, tz_offset, count) is Err,
    ensures
        record_shown(types, conversions, data, tz_offset, more) == record_shown(
            types,
            conversions,
            data,
            tz_offset,
            count,
        ),
    decreases more,
{
    if count < more {
        lemma_record_fails(types, conversions, data, tz_offset, count, (more - 1) as nat);
    }
}

/// An object that has no value up to some column has none further.
pub proof fn lemma_object_fails(
    types: Seq<ColumnType>,
    names: Seq<String>,
    conversions: Seq<Option<ColumnConversion>>,
    data: Seq<Option<Seq<u8>>>,
    tz_offset: i8,
    count: nat,
    more: nat,
)
    requires
        count <= more,
        object_typed(types, names, conversions, data, tz_offset, count) is Err,
    ensures
        object_typed(types, names, conversions, data, tz_offset, more) == object_typed(
            types,
            names,
            conversions,
            data,
            tz_offset,
            count,
        ),
    decreases more,
{
    if count < more {
        lemma_object_fails(types, names, conversions, data, tz_offset, count, (more - 1) as nat);
    }
}

impl Row {
    /// What the columns of this row show under a schema, in their order:
    /// the fields of a record of comma-separated values. `tz_offset` is the
    /// offset in hours that timestamps with a zone are moved by. A column for
    /// which the schema has no type or no conversion entry cannot be shown.
    pub fn generate_csv_output(&self, types: &ColumnTypes, tz_offset: i8) -> (r: Result<
        Vec<Formatted>,
        FormatError,
    >)
        ensures
            record_result(r) == record_shown(
                types.column_types@,
                types.column_conversions@,
                self@.data,
                tz_offset,
                self@.data.len(),
            ),
    {
        let mut record: Vec<Formatted> = Vec::new();
        let mut index: usize = 0;
        proof {
            assert(record_view(record@) =~= Seq::<FormattedView>::empty());
        }
        while index < self.data.len()
            invariant
                index <= self.data@.len(),
                self@.data.len() == self.data@.len(),
                record_shown(
                    types.column_types@,
                    types.column_conversions@,
                    self@.data,
                    tz_offset,
                    index as nat,
                ) == Ok::<Seq<FormattedView>, FormatError>(record_view(record@)),
            decreases self.data.len() - index,
        {
            let ghost before = record_view(record@);
            if index >= types.column_types.len() || index >= types.column_conversions.len() {
                proof {
                    lemma_record_fails(
                        types.column_types@,
                        types.column_conversions@,
                        self@.data,
                        tz_offset,
                        (index + 1) as nat,
                        self@.data.len(),
                    );
                }
                return Err(FormatError::MissingType);
            }
            match types.column_types[index].format_value(
                &self.data[index],
                tz_offset,
                &types.column_conversions[index],
            ) {
                Ok(field) => {
                    let ghost view = field@;
                    record.push(field);
                    proof {
                        assert(record_view(record@) =~= before.push(view));
                    }
                },
                Err(e) => {
                    proof {
                        lemma_record_fails(
                            types.column_types@,
                            types.column_conversions@,
                            self@.data,
                            tz_offset,
                            (index + 1) as nat,
                            self@.data.len(),
                        );
                    }
                    return Err(e);
                },
            }
            index = index + 1;
        }
        Ok(record)
    }

    /// The name and the typed value of each column of this row under a
    /// schema, in the order of the columns: the members of an object. A null
    /// holds nothing, whatever its column's type. A column for which the
    /// schema has no type, no name or no conversion entry has no value.
    pub fn generate_json_output(&self, types: &ColumnTypes, tz_offset: i8) -> (r: Result<
        Vec<(String, JsonValue)>,
        FormatError,
    >)
        ensures
            object_result(r) == object_typed(
                types.column_types@,
                types.column_names@,
                types.column_conversions@,
                self@.data,
                tz_offset,
                self@.data.len(),
            ),
    {
        let mut members: Vec<(String, JsonValue)> = Vec::new();
        let mut index: usize = 0;
        proof {
            assert(object_view(members@) =~= Seq::<(Seq<char>, JsonView)>::empty());
        }
        while index < self.data.len()
            invariant
                index <= self.data@.len(),
                self@.data.len() == self.data@.len(),
                object_typed(
                    types.column_types@,
                    types.column_names@,
                    types.column_conversions@,
                    self@.data,
                    tz_offset,
                    index as nat,
                ) == Ok::<Seq<(Seq<char>, JsonView)>, FormatError>(object_view(members@)),
            decreases self.data.len() - index,
        {
            let ghost before = object_view(members@);
            if index >= types.column_types.len() || index >= types.column_names.len() || index
                >= types.column_conversions.len() {
                proof {
                    lemma_object_fails(
                        types.column_types@,
                        types.column_names@,
                        types.column_conversions@,
                        self@.data,
                        tz_offset,
                        (index + 1) as nat,
                        self@.data.len(),
                    );
                }
                return Err(FormatError::MissingType);
            }
            match types.column_types[index].typed_value(
                &self.data[index],
                tz_offset,
                &types.column_conversions[index],
            ) {
                Ok(value) => {
                    let name = types.column_names[index].clone();
                    let ghost view = (name@, value@);
                    members.push((name, value));
                    proof {
                        assert(object_view(members@) =~= before.push(view));
                    }
                },
                Err(e) => {
                    proof {
                        lemma_object_fails(
                            types.column_types@,
                            types.column_names@,
                            types.column_conversions@,
                            self@.data,
                            tz_offset,
                            (index + 1) as nat,
                            self@.data.len(),
                        );
                    }
                    return Err(e);
                },
            }
            index = index + 1;
        }
        Ok(members)
    }
}

/// A file that holds well-formed rows and then a length of zero gives
/// exactly these rows, whatever follows the zero.
pub proof fn lemma_stream_ends_at_zero_length(
    widths: Seq<u32>,
    written: Seq<WrittenRow>,
    after: Seq<u8>,
)
    requires
        forall|i: int| 0 <= i < written.len() ==> well_formed(widths, #[trigger] written[i]),
    ensures
        rows_decoded(widths, rows_encoded(widths, written) + (le_bytes(0, 4) + after))
            == rows_written(written),
{
    let tail = le_bytes(0, 4) + after;
    lemma_le_bytes_len(0, 4);
    lemma_radix_values();
    lemma_le_value_of_bytes(0, 4);
    assert(tail.take(4) =~= le_bytes(0, 4));
    lemma_stream_gives_written_rows(widths, written, tail);
}

} // verus!
