//! The container layout: an eight-byte signature, then chunk records of a
//! big-endian length `L`, a four-byte type tag, `L` payload bytes and a
//! big-endian CRC-32 of the type tag followed by the payload.
use vstd::prelude::*;
use crate::crc::{crc32, lemma_crc_fold_concat, CrcManager, CRC_MASK};
use crate::stream::{be_u32, ByteStream};

verus! {

/// The part of the layout that a read needed and did not find.
#[derive(Clone, Copy, Debug, PartialEq, Eq, Structural)]
pub enum Field {
    Signature,
    Length,
    ChunkType,
    Data,
    StoredCrc,
}

/// The stream ended before `field` was complete.
#[derive(Clone, Copy, Debug, PartialEq, Eq, Structural)]
pub struct TruncatedStream {
    pub field: Field,
}

/// One chunk record as it stands in the file.
#[derive(Debug)]
pub struct Chunk {
    pub length: u32,
    pub chunk_type: [u8; 4],
    pub data: Vec<u8>,
    pub stored_crc: u32,
}

/// The eight bytes every file of the format starts with.
pub open spec fn signature() -> Seq<u8> {
    seq![0x89u8, 0x50u8, 0x4eu8, 0x47u8, 0x0du8, 0x0au8, 0x1au8, 0x0au8]
}

/// The type tag of the chunk that ends the stream.
pub open spec fn terminator() -> [u8; 4] {
    [0x49u8, 0x45u8, 0x4eu8, 0x44u8]
}

/// Payload length declared by the chunk record at the start of `s`.
pub open spec fn chunk_length(s: Seq<u8>) -> u32 {
    be_u32(s)
}

/// Number of bytes the chunk record at the start of `s` takes up.
pub open spec fn chunk_size(s: Seq<u8>) -> int {
    12 + chunk_length(s)
}

/// The first field that the bytes `s` end inside of, when read as one chunk
/// record; `None` when the whole record is there.
pub open spec fn chunk_shortfall(s: Seq<u8>) -> Option<Field> {
    if s.len() < 4 {
        Some(Field::Length)
    } else if s.len() < 8 {
        Some(Field::ChunkType)
    } else if s.len() < 8 + chunk_length(s) {
        Some(Field::Data)
    } else if s.len() < chunk_size(s) {
        Some(Field::StoredCrc)
    } else {
        None
    }
}

/// Type tag of the chunk record at the start of `s`.
pub open spec fn chunk_type_of(s: Seq<u8>) -> [u8; 4] {
    [s[4], s[5], s[6], s[7]]
}

/// Payload of the chunk record at the start of `s`.
pub open spec fn chunk_data_of(s: Seq<u8>) -> Seq<u8> {
    s.subrange(8, 8 + chunk_length(s))
}

/// Stored checksum of the chunk record at the start of `s`.
pub open spec fn stored_crc_of(s: Seq<u8>) -> u32 {
    be_u32(s.subrange(8 + chunk_length(s), chunk_size(s)))
}

/// The checksum a chunk with this type tag and payload must carry.
pub open spec fn chunk_crc(chunk_type: [u8; 4], data: Seq<u8>) -> u32 {
    crc32(chunk_type@ + data)
}

impl Chunk {
    /// Recomputes the CRC-32 over the type tag followed by the payload.
    pub fn computed_crc(&self, table: &CrcManager) -> (r: u32)
        requires
            table.wf(),
        ensures
            r == chunk_crc(self.chunk_type, self.data@),
    {
        let t: &[u8] = &self.chunk_type;
        let head = table.update_crc(CRC_MASK, t);
        let r = table.update_crc(head, self.data.as_slice()) ^ CRC_MASK;
        proof {
            lemma_crc_fold_concat(table@, CRC_MASK, self.chunk_type@, self.data@);
        }
        r
    }

    /// Whether this is the chunk that ends the stream; the tag is compared
    /// byte for byte.
    pub fn is_terminator(&self) -> (r: bool)
        ensures
            r == (self.chunk_type == terminator()),
    {
        let t = self.chunk_type;
        let r = t[0] == 0x49 && t[1] == 0x45 && t[2] == 0x4e && t[3] == 0x44;
        if r {
            assert(t =~= terminator());
        }
        r
    }
}

/// Reads the first eight bytes and tells whether they are the signature.
/// Fewer than eight bytes is a truncated stream, not a foreign format.
pub fn verify_signature(stream: &mut ByteStream) -> (r: Result<bool, TruncatedStream>)
    ensures
        match r {
            Ok(b) => {
                &&& 8 <= old(stream)@.len()
                &&& b == (old(stream)@.subrange(0, 8) == signature())
                &&& final(stream)@ == old(stream)@.skip(8)
            },
            Err(e) => {
                &&& old(stream)@.len() < 8
                &&& e.field == Field::Signature
                &&& final(stream)@.len() == 0
            },
        },
{
    match stream.read_exact(8) {
        Some(b) => {
            let ok = b[0] == 0x89 && b[1] == 0x50 && b[2] == 0x4e && b[3] == 0x47 && b[4] == 0x0d
                && b[5] == 0x0a && b[6] == 0x1a && b[7] == 0x0a;
            proof {
                if ok {
                    assert(b@ =~= signature());
                } else {
                    assert(b@ != signature()) by {
                        if b@ == signature() {
                            assert(b@[0] == signature()[0]);
                            assert(b@[7] == signature()[7]);
                        }
                    }
                }
            }
            Ok(ok)
        },
        None => Err(TruncatedStream { field: Field::Signature }),
    }
}

/// Reads one whole chunk record. A stream that ends inside the record is
/// reported with the field it ended in, never as a shorter chunk.
pub fn read_chunk(stream: &mut ByteStream) -> (r: Result<Chunk, TruncatedStream>)
    ensures
        match r {
            Ok(c) => {
                let s = old(stream)@;
                &&& chunk_shortfall(s).is_none()
                &&& c.length == chunk_length(s)
                &&& c.chunk_type == chunk_type_of(s)
                &&& c.data@ == chunk_data_of(s)
                &&& c.stored_crc == stored_crc_of(s)
                &&& final(stream)@ == s.skip(chunk_size(s))
            },
            Err(e) => {
                &&& chunk_shortfall(old(stream)@) == Some(e.field)
                &&& final(stream)@.len() == 0
            },
        },
{
    let ghost s0 = stream@;
    let length = match stream.read_u32_be() {
        Some(x) => x,
        None => {
            return Err(TruncatedStream { field: Field::Length });
        },
    };
    let ghost s1 = stream@;
    let t = match stream.read_exact(4) {
        Some(t) => t,
        None => {
            return Err(TruncatedStream { field: Field::ChunkType });
        },
    };
    let chunk_type: [u8; 4] = [t[0], t[1], t[2], t[3]];
    let ghost s2 = stream@;
    let data = match stream.read_exact(length as usize) {
        Some(d) => d,
        None => {
            return Err(TruncatedStream { field: Field::Data });
        },
    };
    let ghost s3 = stream@;
    let stored_crc = match stream.read_u32_be() {
        Some(x) => x,
        None => {
            return Err(TruncatedStream { field: Field::StoredCrc });
        },
    };
    proof {
        assert(data@ =~= chunk_data_of(s0));
        assert(s3 =~= s0.skip(8 + length));
        assert(s3.subrange(0, 4) =~= s0.subrange(8 + length, chunk_size(s0)));
        assert(stream@ =~= s0.skip(chunk_size(s0)));
    }
    Ok(Chunk { length, chunk_type, data, stored_crc })
}

} // verus!
