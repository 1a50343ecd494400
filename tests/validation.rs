use png_crc::chunk::{read_chunk, verify_signature, Field, TruncatedStream};
use png_crc::crc::{build_table, checksum};
use png_crc::stream::ByteStream;
use png_crc::validate::{validate_stream, ValidationResult};

const SIG: [u8; 8] = [0x89, 0x50, 0x4e, 0x47, 0x0d, 0x0a, 0x1a, 0x0a];

fn chunk_bytes(tag: &[u8; 4], data: &[u8]) -> Vec<u8> {
    let table = build_table();
    let mut covered = tag.to_vec();
    covered.extend_from_slice(data);
    let mut out = (data.len() as u32).to_be_bytes().to_vec();
    out.extend_from_slice(&covered);
    out.extend_from_slice(&checksum(&table, &covered).to_be_bytes());
    out
}

fn minimal_file() -> Vec<u8> {
    let mut f = SIG.to_vec();
    f.extend(chunk_bytes(b"AAAA", b""));
    f.extend(chunk_bytes(b"IEND", b""));
    f
}

#[test]
fn minimal_file_is_valid() {
    let f = minimal_file();
    assert_eq!(&f[8..20], &[0, 0, 0, 0, b'A', b'A', b'A', b'A', 0x9b, 0x0d, 0x08, 0xf1]);
    let mut s = ByteStream::new(f);
    assert_eq!(validate_stream(&mut s), ValidationResult::AllValid);
    assert_eq!(s.remaining(), 0);
}

#[test]
fn flipped_stored_crc_is_a_mismatch() {
    let mut f = minimal_file();
    f[8 + 4 + 4] ^= 0x01;
    let mut s = ByteStream::new(f);
    assert_eq!(
        validate_stream(&mut s),
        ValidationResult::Mismatch {
            chunk_index: 0,
            chunk_type: *b"AAAA",
            expected: 0x9a0d08f1,
            actual: 0x9b0d08f1,
        }
    );
}

#[test]
fn mismatch_stops_before_later_chunks() {
    let mut f = SIG.to_vec();
    f.extend(chunk_bytes(b"IHDR", &[1, 2, 3]));
    let mut bad = chunk_bytes(b"DATA", &[9, 9]);
    let n = bad.len();
    bad[n - 1] ^= 0x80;
    f.extend(bad);
    f.extend(chunk_bytes(b"IEND", b""));
    let mut s = ByteStream::new(f);
    match validate_stream(&mut s) {
        ValidationResult::Mismatch { chunk_index, chunk_type, expected, actual } => {
            assert_eq!(chunk_index, 1);
            assert_eq!(&chunk_type, b"DATA");
            assert_eq!(expected ^ actual, 0x80);
        }
        other => panic!("unexpected result {:?}", other),
    }
    assert_eq!(s.remaining(), 12);
}

#[test]
fn truncated_payload_is_reported() {
    let mut f = SIG.to_vec();
    f.extend_from_slice(&10u32.to_be_bytes());
    f.extend_from_slice(b"AAAA");
    f.extend_from_slice(&[1, 2, 3]);
    let mut s = ByteStream::new(f);
    assert_eq!(
        validate_stream(&mut s),
        ValidationResult::Truncated { chunk_index: 0, field: Field::Data }
    );
}

#[test]
fn truncation_names_the_field_and_chunk() {
    let full = minimal_file();
    let cases: [(usize, Field); 4] = [
        (22, Field::Length),
        (26, Field::ChunkType),
        (28, Field::StoredCrc),
        (31, Field::StoredCrc),
    ];
    for (len, field) in cases {
        let mut s = ByteStream::new(full[..len].to_vec());
        assert_eq!(
            validate_stream(&mut s),
            ValidationResult::Truncated { chunk_index: 1, field }
        );
    }
}

#[test]
fn missing_terminator_is_truncation() {
    let mut f = SIG.to_vec();
    f.extend(chunk_bytes(b"AAAA", b"xyz"));
    let mut s = ByteStream::new(f);
    assert_eq!(
        validate_stream(&mut s),
        ValidationResult::Truncated { chunk_index: 1, field: Field::Length }
    );
}

#[test]
fn foreign_signature_is_not_this_format() {
    let mut f = minimal_file();
    f[1] = b'Q';
    let mut s = ByteStream::new(f);
    assert_eq!(validate_stream(&mut s), ValidationResult::NotThisFormat);
    assert_eq!(s.remaining(), 24);
}

#[test]
fn short_signature_is_truncation_not_foreign() {
    let mut s = ByteStream::new(SIG[..5].to_vec());
    assert_eq!(
        validate_stream(&mut s),
        ValidationResult::Truncated { chunk_index: 0, field: Field::Signature }
    );
    let mut t = ByteStream::new(vec![1, 2, 3]);
    assert_eq!(verify_signature(&mut t), Err(TruncatedStream { field: Field::Signature }));
}

#[test]
fn signature_check_reads_eight_bytes() {
    let mut s = ByteStream::new(minimal_file());
    assert_eq!(verify_signature(&mut s), Ok(true));
    assert_eq!(s.remaining(), 24);
    let mut t = ByteStream::new(vec![0u8; 9]);
    assert_eq!(verify_signature(&mut t), Ok(false));
    assert_eq!(t.remaining(), 1);
}

#[test]
fn read_chunk_fields() {
    let mut bytes = chunk_bytes(b"IHDR", &[0, 1, 2, 3, 4, 5, 6, 7, 8, 9, 10, 11, 12]);
    bytes.push(0x42);
    let mut s = ByteStream::new(bytes);
    let c = read_chunk(&mut s).unwrap();
    assert_eq!(c.length, 13);
    assert_eq!(&c.chunk_type, b"IHDR");
    assert_eq!(c.data, (0..13u8).collect::<Vec<u8>>());
    assert_eq!(c.stored_crc, 0xc71a6835);
    assert_eq!(c.computed_crc(&build_table()), 0xc71a6835);
    assert!(!c.is_terminator());
    assert_eq!(s.remaining(), 1);
}

#[test]
fn read_chunk_empty_payload_terminator() {
    let mut s = ByteStream::new(chunk_bytes(b"IEND", b""));
    let c = read_chunk(&mut s).unwrap();
    assert_eq!(c.length, 0);
    assert!(c.data.is_empty());
    assert_eq!(c.stored_crc, 0xae426082);
    assert!(c.is_terminator());
}

#[test]
fn terminator_compared_byte_for_byte() {
    let mut s = ByteStream::new(chunk_bytes(b"iend", b""));
    let c = read_chunk(&mut s).unwrap();
    assert!(!c.is_terminator());
}

#[test]
fn read_exact_never_returns_short() {
    let mut s = ByteStream::new(vec![1, 2, 3]);
    assert_eq!(s.read_exact(2), Some(vec![1, 2]));
    assert_eq!(s.read_exact(2), None);
    assert_eq!(s.remaining(), 0);
    let mut t = ByteStream::new(vec![0x01, 0x02, 0x03, 0x04]);
    assert_eq!(t.read_u32_be(), Some(0x01020304));
    assert_eq!(t.read_u32_be(), None);
}
