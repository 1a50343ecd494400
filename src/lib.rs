//! Integrity checking for chunked image containers: a table-driven CRC-32
//! engine and a validator that walks the chunk stream and compares the
//! checksum stored with each chunk against the one it recomputes.
pub mod crc;
pub mod stream;
pub mod chunk;
pub mod validate;
