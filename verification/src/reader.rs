//! A cursor over the bytes of a file, read front to back and never rewound.
use vstd::prelude::*;
use crate::endian::{le_u64, le_value, lemma_le_value_bound, lemma_radix_values};

verus! {

/// Why a file cannot be decoded.
#[derive(Debug, Clone, Copy, PartialEq, Eq, Structural)]
pub enum DecodeError {
    /// The bytes end before the value that is being read.
    UnexpectedEof,
    /// The file does not start with the signature of the format.
    InvalidSignature,
}

impl DecodeError {
    /// What the error says.
    pub open spec fn message(self) -> Seq<char> {
        match self {
            DecodeError::UnexpectedEof => "failed to fill whole buffer"@,
            DecodeError::InvalidSignature => "header is invalid"@,
        }
    }

    /// What the error says.
    pub fn to_string(&self) -> (text: String)
        ensures
            text@ == self.message(),
    {
        let mut text = String::new();
        match self {
            DecodeError::UnexpectedEof => text.append("failed to fill whole buffer"),
            DecodeError::InvalidSignature => text.append("header is invalid"),
        }
        text
    }
}

/// The bytes of a file and how far they have been read. Its view is what is
/// left to read.
pub struct ByteReader {
    data: Vec<u8>,
    pos: usize,
}

impl View for ByteReader {
    type V = Seq<u8>;

    closed spec fn view(&self) -> Seq<u8> {
        self.data@.skip(self.pos as int)
    }
}

impl ByteReader {
    #[verifier::type_invariant]
    spec fn in_bounds(self) -> bool {
        self.pos <= self.data@.len()
    }

    /// A cursor at the start of `data`.
    pub fn new(data: Vec<u8>) -> (reader: ByteReader)
        ensures
            reader@ == data@,
    {
        let reader = ByteReader { data, pos: 0 };
        reader
    }

    /// How many bytes are left to read.
    pub fn remaining(&self) -> (n: usize)
        ensures
            n == self@.len(),
    {
        proof {
            use_type_invariant(self);
        }
        self.data.len() - self.pos
    }

    /// The next `length` bytes, which are then read; where fewer are left,
    /// nothing is returned and all of them count as read.
    pub fn take(&mut self, length: usize) -> (r: Option<Vec<u8>>)
        ensures
            match r {
                Some(bytes) => {
                    &&& length <= old(self)@.len()
                    &&& bytes@ == old(self)@.take(length as int)
                    &&& final(self)@ == old(self)@.skip(length as int)
                },
                None => length > old(self)@.len() && final(self)@ == Seq::<u8>::empty(),
            },
    {
        proof {
            use_type_invariant(&*self);
        }
        let total: usize = self.data.len();
        if length > total - self.pos {
            self.pos = total;
            None
        } else {
            let start: usize = self.pos;
            let end: usize = start + length;
            let bytes = vstd::slice::slice_to_vec(
                vstd::slice::slice_subrange(self.data.as_slice(), start, end),
            );
            self.pos = end;
            Some(bytes)
        }
    }
}

/// What reading `length` bytes from `stream` gives: the bytes and what is left
/// after them, or nothing where the stream is too short.
pub open spec fn bytes_read(stream: Seq<u8>, length: nat) -> Option<(Seq<u8>, Seq<u8>)> {
    if length <= stream.len() {
        Some((stream.take(length as int), stream.skip(length as int)))
    } else {
        None
    }
}

/// What reading a little-endian number of `length` bytes from `stream` gives.
pub open spec fn number_read(stream: Seq<u8>, length: nat) -> Option<(nat, Seq<u8>)> {
    match bytes_read(stream, length) {
        Some((bytes, rest)) => Some((le_value(bytes), rest)),
        None => None,
    }
}

/// Reads `length` bytes. Where fewer are left the read fails and the reader
/// is left at the end.
pub fn read_variable(reader: &mut ByteReader, length: usize) -> (r: Result<Vec<u8>, DecodeError>)
    ensures
        match r {
            Ok(bytes) => bytes_read(old(reader)@, length as nat) == Some(
                (bytes@, final(reader)@),
            ),
            Err(e) => {
                &&& e == DecodeError::UnexpectedEof
                &&& bytes_read(old(reader)@, length as nat) is None
                &&& final(reader)@ == Seq::<u8>::empty()
            },
        },
{
    match reader.take(length) {
        Some(bytes) => Ok(bytes),
        None => Err(DecodeError::UnexpectedEof),
    }
}

/// Reads four bytes as a little-endian number.
pub fn read_u32(reader: &mut ByteReader) -> (r: Result<u32, DecodeError>)
    ensures
        match r {
            Ok(v) => number_read(old(reader)@, 4) == Some((v as nat, final(reader)@)),
            Err(e) => {
                &&& e == DecodeError::UnexpectedEof
                &&& number_read(old(reader)@, 4) is None
                &&& final(reader)@ == Seq::<u8>::empty()
            },
        },
{
    match reader.take(4) {
        Some(bytes) => {
            proof {
                lemma_le_value_bound(bytes@);
                lemma_radix_values();
            }
            Ok(le_u64(bytes.as_slice()) as u32)
        },
        None => Err(DecodeError::UnexpectedEof),
    }
}

/// Reads two bytes as a little-endian number.
pub fn read_u16(reader: &mut ByteReader) -> (r: Result<u16, DecodeError>)
    ensures
        match r {
            Ok(v) => number_read(old(reader)@, 2) == Some((v as nat, final(reader)@)),
            Err(e) => {
                &&& e == DecodeError::UnexpectedEof
                &&& number_read(old(reader)@, 2) is None
                &&& final(reader)@ == Seq::<u8>::empty()
            },
        },
{
    match reader.take(2) {
        Some(bytes) => {
            proof {
                lemma_le_value_bound(bytes@);
                lemma_radix_values();
            }
            Ok(le_u64(bytes.as_slice()) as u16)
        },
        None => Err(DecodeError::UnexpectedEof),
    }
}

/// Reads one byte.
pub fn read_u8(reader: &mut ByteReader) -> (r: Result<u8, DecodeError>)
    ensures
        match r {
            Ok(v) => number_read(old(reader)@, 1) == Some((v as nat, final(reader)@)),
            Err(e) => {
                &&& e == DecodeError::UnexpectedEof
                &&& number_read(old(reader)@, 1) is None
                &&& final(reader)@ == Seq::<u8>::empty()
            },
        },
{
    match reader.take(1) {
        Some(bytes) => {
            proof {
                lemma_le_value_bound(bytes@);
                lemma_radix_values();
            }
            Ok(le_u64(bytes.as_slice()) as u8)
        },
        None => Err(DecodeError::UnexpectedEof),
    }
}

} // verus!
