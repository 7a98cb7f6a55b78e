//! The eleven bytes that every file of the format starts with.
use vstd::prelude::*;
use crate::reader::{bytes_read, read_variable, ByteReader, DecodeError};

verus! {

/// How many bytes the signature has.
pub const FILE_SIGNATURE_LENGTH: usize = 11;

/// The signature: `NATIVE`, a line feed, `0xFF`, a carriage return, a line
/// feed and a zero byte.
pub open spec fn signature() -> Seq<u8> {
    seq![0x4Eu8, 0x41u8, 0x54u8, 0x49u8, 0x56u8, 0x45u8, 0x0Au8, 0xFFu8, 0x0Du8, 0x0Au8, 0x00u8]
}

/// The signature as bytes to compare with.
pub fn valid_signature() -> (bytes: [u8; 11])
    ensures
        bytes@ == signature(),
{
    let bytes: [u8; 11] = [0x4E, 0x41, 0x54, 0x49, 0x56, 0x45, 0x0A, 0xFF, 0x0D, 0x0A, 0x00];
    bytes
}

/// The signature as it was read from a file. It is only ever compared with
/// the one that the format prescribes.
#[derive(Debug)]
pub struct FileSignature {
    pub data: [u8; 11],
}

/// Accepts the eleven bytes if they are the signature.
pub fn validate(data: &[u8; 11]) -> (r: Result<(), DecodeError>)
    ensures
        r is Ok <==> data@ == signature(),
        r is Err ==> r == Err::<(), DecodeError>(DecodeError::InvalidSignature),
{
    let expected = valid_signature();
    let mut i: usize = 0;
    while i < 11
        invariant
            i <= 11,
            expected@ == signature(),
            forall|j: int| 0 <= j < i ==> data@[j] == expected@[j],
        decreases 11 - i,
    {
        if expected[i] != data[i] {
            return Err(DecodeError::InvalidSignature);
        }
        i = i + 1;
    }
    assert(data@ =~= signature());
    Ok(())
}

impl FileSignature {
    /// Reads the signature. A file of fewer than eleven bytes ends too early;
    /// eleven bytes that differ from the signature are rejected, and are read
    /// all the same.
    pub fn from_reader(reader: &mut ByteReader) -> (r: Result<FileSignature, DecodeError>)
        ensures
            match r {
                Ok(found) => {
                    &&& found.data@ == signature()
                    &&& bytes_read(old(reader)@, 11) == Some((signature(), final(reader)@))
                },
                Err(e) => match bytes_read(old(reader)@, 11) {
                    Some((bytes, rest)) => {
                        &&& e == DecodeError::InvalidSignature
                        &&& bytes != signature()
                        &&& final(reader)@ == rest
                    },
                    None => e == DecodeError::UnexpectedEof && final(reader)@ == Seq::<u8>::empty(),
                },
            },
    {
        let bytes = read_variable(reader, FILE_SIGNATURE_LENGTH)?;
        let mut data: [u8; 11] = [0; 11];
        let mut i: usize = 0;
        while i < FILE_SIGNATURE_LENGTH
            invariant
                i <= 11,
                bytes@.len() == 11,
                forall|j: int| 0 <= j < i ==> data@[j] == bytes@[j],
            decreases 11 - i,
        {
            data[i] = bytes[i];
            i = i + 1;
        }
        assert(data@ =~= bytes@);
        match validate(&data) {
            Ok(()) => Ok(FileSignature { data }),
            Err(e) => Err(e),
        }
    }
}

} // verus!
