//! The chunk-stream validator: signature first, then chunk after chunk until
//! the terminator, stopping at the first truncation or checksum mismatch.
use vstd::prelude::*;
use crate::chunk::{
    chunk_crc, chunk_data_of, chunk_length, chunk_shortfall, chunk_size, chunk_type_of, read_chunk, signature,
    stored_crc_of, terminator, verify_signature, Field,
};
use crate::crc::{build_table, CrcManager};
use crate::stream::ByteStream;

verus! {

/// Verdict of one validation run.
#[derive(Clone, Copy, Debug, PartialEq, Eq)]
pub enum ValidationResult {
    /// The first eight bytes are not the signature; no chunk was read.
    NotThisFormat,
    /// Every chunk up to and including the terminator carries its checksum.
    AllValid,
    /// Chunk number `chunk_index` (from 0) carries `expected` but its type tag
    /// and payload give `actual`.
    Mismatch { chunk_index: usize, chunk_type: [u8; 4], expected: u32, actual: u32 },
    /// The stream ended inside `field` of chunk number `chunk_index`; a stream
    /// shorter than the signature ends inside the signature, at index 0.
    Truncated { chunk_index: usize, field: Field },
}

/// Verdict for the chunk records in `s`, the first of them numbered `index`.
pub open spec fn chunks_outcome(s: Seq<u8>, index: usize) -> ValidationResult
    decreases s.len(),
{
    match chunk_shortfall(s) {
        Some(f) => ValidationResult::Truncated { chunk_index: index, field: f },
        None => {
            let t = chunk_type_of(s);
            let expected = stored_crc_of(s);
            let actual = chunk_crc(t, chunk_data_of(s));
            if actual != expected {
                ValidationResult::Mismatch { chunk_index: index, chunk_type: t, expected, actual }
            } else if t == terminator() {
                ValidationResult::AllValid
            } else {
                chunks_outcome(s.skip(chunk_size(s)), (index + 1) as usize)
            }
        },
    }
}

/// Verdict for a whole file `s`.
pub open spec fn stream_outcome(s: Seq<u8>) -> ValidationResult {
    if s.len() < 8 {
        ValidationResult::Truncated { chunk_index: 0, field: Field::Signature }
    } else if s.subrange(0, 8) != signature() {
        ValidationResult::NotThisFormat
    } else {
        chunks_outcome(s.skip(8), 0)
    }
}

/// Checks the chunk records that follow the signature with `table`.
pub fn validate_chunks(stream: &mut ByteStream, table: &CrcManager) -> (r: ValidationResult)
    requires
        table.wf(),
    ensures
        r == chunks_outcome(old(stream)@, 0),
        final(stream)@.len() <= old(stream)@.len(),
        final(stream)@ == old(stream)@.skip(old(stream)@.len() - final(stream)@.len()),
{
    let ghost s0 = stream@;
    let total: usize = stream.remaining();
    let mut index: usize = 0;
    loop
        invariant
            table.wf(),
            s0 == old(stream)@,
            s0.len() == total,
            stream@.len() + 12 * index <= s0.len(),
            stream@ == s0.skip(s0.len() - stream@.len()),
            chunks_outcome(s0, 0) == chunks_outcome(stream@, index),
        decreases stream@.len(),
    {
        let ghost s = stream@;
        let chunk = match read_chunk(stream) {
            Ok(c) => c,
            Err(e) => {
                proof {
                    assert(stream@ =~= s0.skip(s0.len() as int));
                    assert(chunks_outcome(s, index) == ValidationResult::Truncated {
                        chunk_index: index,
                        field: e.field,
                    });
                }
                return ValidationResult::Truncated { chunk_index: index, field: e.field };
            },
        };
        let actual = chunk.computed_crc(table);
        proof {
            assert(stream@ =~= s0.skip(s0.len() - stream@.len()));
            assert(chunk.chunk_type == chunk_type_of(s));
            assert(actual == chunk_crc(chunk_type_of(s), chunk_data_of(s)));
        }
        if actual != chunk.stored_crc {
            return ValidationResult::Mismatch {
                chunk_index: index,
                chunk_type: chunk.chunk_type,
                expected: chunk.stored_crc,
                actual,
            };
        }
        if chunk.is_terminator() {
            return ValidationResult::AllValid;
        }
        index = index + 1;
    }
}

/// Validates a whole file: the signature, then every chunk up to the
/// terminator, with one table built for the run.
pub fn validate_stream(stream: &mut ByteStream) -> (r: ValidationResult)
    ensures
        r == stream_outcome(old(stream)@),
        final(stream)@.len() <= old(stream)@.len(),
        final(stream)@ == old(stream)@.skip(old(stream)@.len() - final(stream)@.len()),
{
    let ghost s0 = stream@;
    match verify_signature(stream) {
        Err(_) => {
            proof {
                assert(stream@ =~= s0.skip(s0.len() as int));
            }
            ValidationResult::Truncated { chunk_index: 0, field: Field::Signature }
        },
        Ok(false) => ValidationResult::NotThisFormat,
        Ok(true) => {
            let table = build_table();
            let r = validate_chunks(stream, &table);
            proof {
                assert(stream@ =~= s0.skip(s0.len() - stream@.len()));
            }
            r
        },
    }
}

/// A file that does not open with the signature is a foreign format, whatever
/// follows it: no chunk is looked at.
pub proof fn lemma_foreign_signature(s: Seq<u8>)
    requires
        s.len() >= 8,
        s.subrange(0, 8) != signature(),
    ensures
        stream_outcome(s) == ValidationResult::NotThisFormat,
{
}

/// A file whose first chunk declares more payload than the file holds is
/// truncated inside that payload, never read as a shorter chunk.
pub proof fn lemma_truncated_payload(s: Seq<u8>)
    requires
        s.len() >= 16,
        s.subrange(0, 8) == signature(),
        s.len() < 16 + chunk_length(s.skip(8)),
    ensures
        stream_outcome(s) == (ValidationResult::Truncated { chunk_index: 0, field: Field::Data }),
{
}

} // verus!
